//! The session-gated telemetry store: users, devices, messages and login
//! records, with access-control, expiry, counting and query rules.
//!
//! Every operation is specified against the store's mathematical view
//! ([`StoreModel`]): four sequences of records. Sessions are gated by a
//! deterministic login token (see [`crate::token`]) with a 3600-second
//! time-to-live; device ownership lives solely in each user's `devices`
//! list; messages are append-only.

use crate::request::{
    CreateDeviceRequest, FetchDeviceListRequest, FetchDeviceProfileRequest, FetchDeviceRequest,
    FetchMessageListRequest, LoginRequest, ModifyDeviceRequest, RegisterRequest,
    RemoveDeviceRequest,
};
use crate::response::{DeviceInfo, MessageInfo};
use crate::token::token_of;
use vstd::prelude::*;

verus! {

/// Seconds a login record stays valid after it was issued.
pub const MAX_LOGIN_TIME_SECS: i64 = 3600;

/// A registered account. `devices` lists the ids of the devices the user
/// owns, in insertion order; it is the sole record of ownership.
pub struct User {
    pub mail: String,
    pub name: String,
    /// One-way digest of the password.
    pub password: String,
    pub devices: Vec<String>,
}

/// A registered device. Carries no owner reference.
pub struct Device {
    pub id: String,
    pub name: String,
    pub info: String,
}

/// One stored telemetry record. `lng` and `lat` carry the position as raw
/// IEEE-754 bit patterns; the store never interprets them.
pub struct Message {
    pub id: String,
    pub info: String,
    pub value: i32,
    pub alert: bool,
    pub lng: u64,
    pub lat: u64,
    pub timestamp: i64,
}

/// One login: the session token and the second it was issued at.
pub struct LoginRecord {
    pub login_token: String,
    pub login_time: i64,
}

/// Why an operation was refused.
#[derive(Clone, Copy, PartialEq, Eq, Structural, Debug)]
pub enum Error {
    DuplicateMail,
    DuplicateName,
    NoSuchUser,
    WrongPassword,
    SessionExpired,
    NoSuchDevice,
    NoSuchOwnedDevice,
}

impl Error {
    /// The stable wire string for this error, as callers surface it in the
    /// response envelope.
    pub fn message(&self) -> (r: String)
        ensures
            r@ == self.message_spec(),
    {
        match self {
            Error::DuplicateMail => String::from_str("Duplicated mail address"),
            Error::DuplicateName => String::from_str("Duplicated username"),
            Error::NoSuchUser => String::from_str("User doesn't exist"),
            Error::WrongPassword => String::from_str("error-wrong-password"),
            Error::SessionExpired => String::from_str("Login has expired"),
            Error::NoSuchDevice => String::from_str("Device doesn't exist"),
            Error::NoSuchOwnedDevice => String::from_str("Device doesn't exist"),
        }
    }

    pub open spec fn message_spec(&self) -> Seq<char> {
        match self {
            Error::DuplicateMail => "Duplicated mail address"@,
            Error::DuplicateName => "Duplicated username"@,
            Error::NoSuchUser => "User doesn't exist"@,
            Error::WrongPassword => "error-wrong-password"@,
            Error::SessionExpired => "Login has expired"@,
            Error::NoSuchDevice => "Device doesn't exist"@,
            Error::NoSuchOwnedDevice => "Device doesn't exist"@,
        }
    }
}

/// The store's mathematical view.
#[verifier::ext_equal]
pub struct StoreModel {
    pub users: Seq<User>,
    pub devices: Seq<Device>,
    pub messages: Seq<Message>,
    pub login_records: Seq<LoginRecord>,
}

/// The telemetry store. An in-memory document store owned by the caller
/// and passed explicitly into every operation.
pub struct Database {
    users: Vec<User>,
    devices: Vec<Device>,
    messages: Vec<Message>,
    login_records: Vec<LoginRecord>,
}

impl View for Database {
    type V = StoreModel;

    closed spec fn view(&self) -> StoreModel {
        StoreModel {
            users: self.users@,
            devices: self.devices@,
            messages: self.messages@,
            login_records: self.login_records@,
        }
    }
}

/// Some user has this mail address.
pub open spec fn has_mail(users: Seq<User>, mail: Seq<char>) -> bool {
    exists|i: int| 0 <= i < users.len() && users[i].mail@ == mail
}

/// Some user has this display name.
pub open spec fn has_name(users: Seq<User>, name: Seq<char>) -> bool {
    exists|i: int| 0 <= i < users.len() && users[i].name@ == name
}

/// The index of the user with this mail address; meaningful only when
/// `has_mail` holds (it is unique once the store is well formed).
pub open spec fn user_index(users: Seq<User>, mail: Seq<char>) -> int {
    choose|i: int| 0 <= i < users.len() && users[i].mail@ == mail
}

/// Some device record has this id.
pub open spec fn has_device(devices: Seq<Device>, id: Seq<char>) -> bool {
    exists|i: int| 0 <= i < devices.len() && devices[i].id@ == id
}

/// The index of the device record with this id; meaningful only when
/// `has_device` holds.
pub open spec fn device_index(devices: Seq<Device>, id: Seq<char>) -> int {
    choose|i: int| 0 <= i < devices.len() && devices[i].id@ == id
}

/// The user owns a device with this id.
pub open spec fn owns_device(u: User, id: Seq<char>) -> bool {
    exists|k: int| 0 <= k < u.devices@.len() && u.devices@[k]@ == id
}

/// Some login record carries this token.
pub open spec fn has_token(records: Seq<LoginRecord>, token: Seq<char>) -> bool {
    exists|i: int| 0 <= i < records.len() && records[i].login_token@ == token
}

/// A record issued at `t` is still valid at `now`.
pub open spec fn record_live(t: i64, now: int) -> bool {
    now - t <= MAX_LOGIN_TIME_SECS
}

/// The token grants a live session at `now`: some record for it is within
/// its time-to-live. (The most recently issued record decides; it is live
/// exactly when any record is.)
pub open spec fn token_live(records: Seq<LoginRecord>, token: Seq<char>, now: int) -> bool {
    exists|i: int|
        0 <= i < records.len() && records[i].login_token@ == token && record_live(
            records[i].login_time,
            now,
        )
}

/// How the login records may change when an operation checks a session:
/// a live or unknown token leaves them alone; an expired token evicts one
/// most recently issued record for it.
pub open spec fn records_after_check(
    pre: Seq<LoginRecord>,
    post: Seq<LoginRecord>,
    token: Seq<char>,
    now: int,
) -> bool {
    if token_live(pre, token, now) || !has_token(pre, token) {
        post == pre
    } else {
        exists|i: int|
            0 <= i < pre.len() && pre[i].login_token@ == token && (forall|j: int|
                0 <= j < pre.len() && pre[j].login_token@ == token ==> pre[j].login_time
                    <= pre[i].login_time) && post == pre.remove(i)
    }
}

/// Mail addresses and names are each unique across users, and device ids
/// are unique across device records.
pub open spec fn store_wf(s: StoreModel) -> bool {
    &&& forall|i: int, j: int|
        0 <= i < j < s.users.len() ==> s.users[i].mail@ != s.users[j].mail@ && s.users[i].name@
            != s.users[j].name@
    &&& forall|i: int, j: int| 0 <= i < j < s.devices.len() ==> s.devices[i].id@ != s.devices[j].id@
}

/// The outcome registration owes for this store and request: a duplicate
/// mail is refused first, then a duplicate name, and otherwise the user
/// is admitted.
pub open spec fn register_result(users: Seq<User>, mail: Seq<char>, name: Seq<char>) -> Result<
    (),
    Error,
> {
    if has_mail(users, mail) {
        Err(Error::DuplicateMail)
    } else if has_name(users, name) {
        Err(Error::DuplicateName)
    } else {
        Ok(())
    }
}

/// Relies on std's `str` equality: two string slices are equal exactly
/// when their characters are.
pub assume_specification[ <str as PartialEq>::eq ](s: &str, other: &str) -> (r: bool)
    ensures
        r == (s@ == other@),
;

impl Clone for LoginRecord {
    fn clone(&self) -> (r: Self)
        ensures
            r == *self,
    {
        LoginRecord { login_token: self.login_token.clone(), login_time: self.login_time }
    }
}

impl Clone for Message {
    fn clone(&self) -> (r: Self)
        ensures
            r == *self,
    {
        Message {
            id: self.id.clone(),
            info: self.info.clone(),
            value: self.value,
            alert: self.alert,
            lng: self.lng,
            lat: self.lat,
            timestamp: self.timestamp,
        }
    }
}

impl Message {
    /// A telemetry record with the given fields; `lng` and `lat` are the
    /// position's raw IEEE-754 bit patterns.
    pub fn new(
        id: String,
        info: String,
        value: i32,
        alert: bool,
        lng: u64,
        lat: u64,
        timestamp: i64,
    ) -> (m: Message)
        ensures
            m.id == id,
            m.info == info,
            m.value == value,
            m.alert == alert,
            m.lng == lng,
            m.lat == lat,
            m.timestamp == timestamp,
    {
        Message { id, info, value, alert, lng, lat, timestamp }
    }
}

/// After a successful registration the new account stands at the end of
/// the user sequence, with the requested mail, name and password digest
/// and no devices.
pub open spec fn register_ok_post(pre: Seq<User>, post: Seq<User>, info: RegisterRequest) -> bool {
    &&& post.len() == pre.len() + 1
    &&& post.drop_last() == pre
    &&& post.last().mail@ == info.mail@
    &&& post.last().name@ == info.name@
    &&& post.last().password@ == info.password@
    &&& post.last().devices@ == Seq::<String>::empty()
}

/// The outcome login owes: an unknown mail address is reported before a
/// wrong password digest; otherwise the session is granted.
pub open spec fn login_result(users: Seq<User>, mail: Seq<char>, password: Seq<char>) -> Result<
    (),
    Error,
> {
    if !has_mail(users, mail) {
        Err(Error::NoSuchUser)
    } else if users[user_index(users, mail)].password@ != password {
        Err(Error::WrongPassword)
    } else {
        Ok(())
    }
}

/// The login records left once every record for `token` is dropped.
pub open spec fn records_without(records: Seq<LoginRecord>, token: Seq<char>) -> Seq<LoginRecord> {
    records.filter(|rec: LoginRecord| rec.login_token@ != token)
}

/// Dropping a token's records distributes over appending a record.
pub proof fn lemma_records_without_push(
    records: Seq<LoginRecord>,
    rec: LoginRecord,
    token: Seq<char>,
)
    ensures
        records_without(records.push(rec), token) == if rec.login_token@ != token {
            records_without(records, token).push(rec)
        } else {
            records_without(records, token)
        },
{
    broadcast use Seq::<_>::lemma_filter_push;

}

/// The stored messages for a device, in storage order.
pub open spec fn msgs_for_device(msgs: Seq<Message>, id: Seq<char>) -> Seq<Message> {
    msgs.filter(|m: Message| m.id@ == id)
}

/// The stored alert messages for a device, in storage order.
pub open spec fn alert_msgs_for_device(msgs: Seq<Message>, id: Seq<char>) -> Seq<Message> {
    msgs.filter(|m: Message| m.id@ == id && m.alert)
}

/// A count clipped to what a `u32` can report.
pub open spec fn sat_u32(n: nat) -> nat {
    if n > u32::MAX as nat {
        u32::MAX as nat
    } else {
        n
    }
}

/// Selecting a device's messages distributes over appending a message.
pub proof fn lemma_msgs_for_device_push(msgs: Seq<Message>, m: Message, id: Seq<char>)
    ensures
        msgs_for_device(msgs.push(m), id) == if m.id@ == id {
            msgs_for_device(msgs, id).push(m)
        } else {
            msgs_for_device(msgs, id)
        },
        alert_msgs_for_device(msgs.push(m), id) == if m.id@ == id && m.alert {
            alert_msgs_for_device(msgs, id).push(m)
        } else {
            alert_msgs_for_device(msgs, id)
        },
{
    broadcast use Seq::<_>::lemma_filter_push;

}

/// A device-id list contains this id.
pub open spec fn contains_id(ids: Seq<String>, id: Seq<char>) -> bool {
    exists|k: int| 0 <= k < ids.len() && ids[k]@ == id
}

/// The device-id list with every entry for `id` removed.
pub open spec fn ids_without(ids: Seq<String>, id: Seq<char>) -> Seq<String> {
    ids.filter(|d: String| d@ != id)
}

/// Removing an id's entries distributes over appending an entry.
pub proof fn lemma_ids_without_push(ids: Seq<String>, d: String, id: Seq<char>)
    ensures
        ids_without(ids.push(d), id) == if d@ != id {
            ids_without(ids, id).push(d)
        } else {
            ids_without(ids, id)
        },
{
    broadcast use Seq::<_>::lemma_filter_push;

}

/// The sequences agree everywhere but possibly at `i`.
pub open spec fn updated_only_at<T>(pre: Seq<T>, post: Seq<T>, i: int) -> bool {
    &&& post.len() == pre.len()
    &&& forall|k: int| 0 <= k < pre.len() && k != i ==> post[k] == pre[k]
}

/// The user keeps mail, name and password and gains one owned device id.
pub open spec fn user_with_device_added(pre: User, post: User, id: String) -> bool {
    &&& post.mail == pre.mail
    &&& post.name == pre.name
    &&& post.password == pre.password
    &&& post.devices@ == pre.devices@.push(id)
}

/// The user keeps mail, name and password and loses every entry for `id`.
pub open spec fn user_with_device_removed(pre: User, post: User, id: Seq<char>) -> bool {
    &&& post.mail == pre.mail
    &&& post.name == pre.name
    &&& post.password == pre.password
    &&& post.devices@ == ids_without(pre.devices@, id)
}

/// Replacing one user with one of the same mail and name keeps the store
/// well formed.
pub proof fn lemma_wf_user_update(pre: StoreModel, post: StoreModel, ui: int)
    requires
        store_wf(pre),
        post.devices == pre.devices,
        0 <= ui < pre.users.len(),
        updated_only_at(pre.users, post.users, ui),
        post.users[ui].mail@ == pre.users[ui].mail@,
        post.users[ui].name@ == pre.users[ui].name@,
    ensures
        store_wf(post),
{
    assert forall|i: int, j: int| 0 <= i < j < post.users.len() implies post.users[i].mail@
        != post.users[j].mail@ && post.users[i].name@ != post.users[j].name@ by {
        assert(pre.users[i].mail@ != pre.users[j].mail@);
        if i != ui {
            assert(post.users[i] == pre.users[i]);
        }
        if j != ui {
            assert(post.users[j] == pre.users[j]);
        }
    }
    assert forall|i: int, j: int| 0 <= i < j < post.devices.len() implies post.devices[i].id@
        != post.devices[j].id@ by {
        assert(post.devices[i] == pre.devices[i]);
        assert(post.devices[j] == pre.devices[j]);
    }
}

/// Replacing one device with one of the same id keeps the store well
/// formed.
pub proof fn lemma_wf_device_update(pre: StoreModel, post: StoreModel, di: int)
    requires
        store_wf(pre),
        post.users == pre.users,
        0 <= di < pre.devices.len(),
        updated_only_at(pre.devices, post.devices, di),
        post.devices[di].id@ == pre.devices[di].id@,
    ensures
        store_wf(post),
{
    assert forall|i: int, j: int| 0 <= i < j < post.users.len() implies post.users[i].mail@
        != post.users[j].mail@ && post.users[i].name@ != post.users[j].name@ by {
        assert(post.users[i] == pre.users[i]);
        assert(post.users[j] == pre.users[j]);
    }
    assert forall|i: int, j: int| 0 <= i < j < post.devices.len() implies post.devices[i].id@
        != post.devices[j].id@ by {
        assert(pre.devices[i].id@ != pre.devices[j].id@);
        if i != di {
            assert(post.devices[i] == pre.devices[i]);
        }
        if j != di {
            assert(post.devices[j] == pre.devices[j]);
        }
    }
}

/// Admitting a device with an unused id keeps the store well formed.
pub proof fn lemma_wf_device_push(pre: StoreModel, post: StoreModel, d: Device)
    requires
        store_wf(pre),
        post.users == pre.users,
        post.devices == pre.devices.push(d),
        !has_device(pre.devices, d.id@),
    ensures
        store_wf(post),
{
    assert forall|i: int, j: int| 0 <= i < j < post.users.len() implies post.users[i].mail@
        != post.users[j].mail@ && post.users[i].name@ != post.users[j].name@ by {
        assert(post.users[i] == pre.users[i]);
        assert(post.users[j] == pre.users[j]);
    }
    assert forall|i: int, j: int| 0 <= i < j < post.devices.len() implies post.devices[i].id@
        != post.devices[j].id@ by {
        if j < post.devices.len() - 1 {
            assert(post.devices[i] == pre.devices[i]);
            assert(post.devices[j] == pre.devices[j]);
        } else {
            assert(post.devices[i] == pre.devices[i]);
            assert(post.devices[j] == d);
            if pre.devices[i].id@ == d.id@ {
                assert(has_device(pre.devices, d.id@));
            }
        }
    }
}

/// A correct profile for device `id`: the record's id and name together
/// with its current message counts, both clipped to `u32`.
pub open spec fn device_profile_ok(s: StoreModel, id: Seq<char>, p: DeviceInfo) -> bool {
    let d = s.devices[device_index(s.devices, id)];
    &&& has_device(s.devices, id)
    &&& p.id@ == d.id@
    &&& p.name@ == d.name@
    &&& p.message_count as nat == sat_u32(msgs_for_device(s.messages, id).len())
    &&& p.alert_message_count as nat == sat_u32(alert_msgs_for_device(s.messages, id).len())
}

/// A message the query selects: the device matches and the timestamp
/// lies in the inclusive range.
pub open spec fn msg_in_query(m: Message, id: Seq<char>, t0: i64, t1: i64) -> bool {
    m.id@ == id && t0 <= m.timestamp && m.timestamp <= t1
}

/// The stored messages the query selects, in storage order.
pub open spec fn msgs_in_range(msgs: Seq<Message>, id: Seq<char>, t0: i64, t1: i64) -> Seq<
    Message,
> {
    msgs.filter(|m: Message| msg_in_query(m, id, t0, t1))
}

/// Selecting a query's messages distributes over appending a message.
pub proof fn lemma_msgs_in_range_push(msgs: Seq<Message>, m: Message, id: Seq<char>, t0: i64, t1: i64)
    ensures
        msgs_in_range(msgs.push(m), id, t0, t1) == if msg_in_query(m, id, t0, t1) {
            msgs_in_range(msgs, id, t0, t1).push(m)
        } else {
            msgs_in_range(msgs, id, t0, t1)
        },
{
    broadcast use Seq::<_>::lemma_filter_push;

}

/// Timestamps never increase along the sequence.
pub open spec fn sorted_desc(s: Seq<Message>) -> bool {
    forall|i: int, j: int| 0 <= i <= j < s.len() ==> s[i].timestamp >= s[j].timestamp
}

/// The reported form of a stored message.
pub open spec fn info_of(m: Message) -> MessageInfo {
    MessageInfo {
        id: m.id,
        info: m.info,
        value: m.value,
        alert: m.alert,
        lng: m.lng,
        lat: m.lat,
        timestamp: m.timestamp,
    }
}

/// The pagination window: skip `first_index` entries, take up to `limit`.
pub open spec fn page_of(s: Seq<Message>, first_index: int, limit: int) -> Seq<Message> {
    let start = if first_index > s.len() {
        s.len() as int
    } else {
        first_index
    };
    let end = if start + limit > s.len() {
        s.len() as int
    } else {
        start + limit
    };
    s.subrange(start, end)
}

/// How often an id occurs in a user's device list.
pub open spec fn id_occurrences(ids: Seq<String>, id: Seq<char>) -> nat {
    ids.filter(|d: String| d@ == id).len()
}

/// The total a query reports: every stored match in the range, whatever
/// pagination window the caller asks for.
pub open spec fn query_total(
    msgs: Seq<Message>,
    id: Seq<char>,
    t0: i64,
    t1: i64,
    first_index: usize,
) -> nat {
    msgs_in_range(msgs, id, t0, t1).len()
}

/// Registering a mail address and then registering it again yields
/// `DuplicateMail` on the second attempt, whatever name the second
/// attempt carries: a successful registration leaves the store with the
/// mail present, and a present mail is refused first.
pub proof fn lemma_register_twice_same_mail(users: Seq<User>, u: User, name2: Seq<char>)
    ensures
        register_result(users.push(u), u.mail@, name2) == Err::<(), Error>(Error::DuplicateMail),
{
    assert(users.push(u)[users.len() as int] == u);
    assert(has_mail(users.push(u), u.mail@));
}

/// Once a session check at `now` found a token expired (and evicted a
/// record), any later check still finds it expired: validity never
/// returns without a fresh login.
pub proof fn lemma_expired_stays_expired(
    pre: Seq<LoginRecord>,
    post: Seq<LoginRecord>,
    token: Seq<char>,
    now: int,
    later: int,
)
    requires
        !token_live(pre, token, now),
        records_after_check(pre, post, token, now),
        now <= later,
    ensures
        !token_live(post, token, later),
{
    if token_live(post, token, later) {
        let i = choose|i: int|
            0 <= i < post.len() && post[i].login_token@ == token && record_live(
                post[i].login_time,
                later,
            );
        if !has_token(pre, token) {
            assert(post == pre);
            assert(has_token(pre, token));
        } else {
            let k = choose|k: int|
                0 <= k < pre.len() && pre[k].login_token@ == token && (forall|j: int|
                    0 <= j < pre.len() && pre[j].login_token@ == token ==> pre[j].login_time
                        <= pre[k].login_time) && post == pre.remove(k);
            pre.remove_ensures(k);
            let pi = if i < k {
                i
            } else {
                i + 1
            };
            assert(post[i] == pre[pi]);
            assert(record_live(pre[pi].login_time, now)) by {
                assert(later - pre[pi].login_time <= MAX_LOGIN_TIME_SECS);
            }
            assert(token_live(pre, token, now));
        }
    }
}

/// Adding a device appends its id to the user's list, so after the add
/// the id occurs there exactly once more than before; the device list a
/// fetch returns carries one entry per stored id, in order.
pub proof fn lemma_added_device_listed_once_more(ids: Seq<String>, id: String)
    ensures
        id_occurrences(ids.push(id), id@) == id_occurrences(ids, id@) + 1,
{
    broadcast use Seq::<_>::lemma_filter_push;

}

/// For a fixed device and time range the reported total is the same
/// whatever `first_index` the caller skips: raising it cannot shrink the
/// total.
pub proof fn lemma_total_unmoved_by_first_index(
    msgs: Seq<Message>,
    id: Seq<char>,
    t0: i64,
    t1: i64,
    fi1: usize,
    fi2: usize,
)
    ensures
        query_total(msgs, id, t0, t1, fi2) == query_total(msgs, id, t0, t1, fi1),
{
}

/// When mail addresses are unique, `user_index` agrees with any witness.
pub proof fn lemma_user_index_agrees(users: Seq<User>, mail: Seq<char>, i: int)
    requires
        forall|p: int, q: int| 0 <= p < q < users.len() ==> users[p].mail@ != users[q].mail@,
        0 <= i < users.len(),
        users[i].mail@ == mail,
    ensures
        user_index(users, mail) == i,
{
    assert(has_mail(users, mail));
    let j = user_index(users, mail);
    assert(0 <= j < users.len() && users[j].mail@ == mail);
}

/// When device ids are unique, `device_index` agrees with any witness.
pub proof fn lemma_device_index_agrees(devices: Seq<Device>, id: Seq<char>, i: int)
    requires
        forall|p: int, q: int| 0 <= p < q < devices.len() ==> devices[p].id@ != devices[q].id@,
        0 <= i < devices.len(),
        devices[i].id@ == id,
    ensures
        device_index(devices, id) == i,
{
    assert(has_device(devices, id));
    let j = device_index(devices, id);
    assert(0 <= j < devices.len() && devices[j].id@ == id);
}


/// Well-formedness only watches users and devices: a store that keeps
/// both keeps it.
pub proof fn lemma_wf_same(pre: StoreModel, post: StoreModel)
    requires
        store_wf(pre),
        post.users == pre.users,
        post.devices == pre.devices,
    ensures
        store_wf(post),
{
    assert forall|i: int, j: int| 0 <= i < j < post.users.len() implies post.users[i].mail@
        != post.users[j].mail@ && post.users[i].name@ != post.users[j].name@ by {
        assert(post.users[i] == pre.users[i]);
        assert(post.users[j] == pre.users[j]);
    }
    assert forall|i: int, j: int| 0 <= i < j < post.devices.len() implies post.devices[i].id@
        != post.devices[j].id@ by {
        assert(post.devices[i] == pre.devices[i]);
        assert(post.devices[j] == pre.devices[j]);
    }
}

impl Database {
    /// A fresh, empty store.
    pub fn new() -> (db: Database)
        ensures
            db@.users == Seq::<User>::empty(),
            db@.devices == Seq::<Device>::empty(),
            db@.messages == Seq::<Message>::empty(),
            db@.login_records == Seq::<LoginRecord>::empty(),
            store_wf(db@),
    {
        Database {
            users: Vec::new(),
            devices: Vec::new(),
            messages: Vec::new(),
            login_records: Vec::new(),
        }
    }

    /// Admits a new account. The mail and the name must each be unused;
    /// a duplicate mail is reported even when the name collides too. The
    /// password arrives as a one-way digest computed by the caller. No
    /// login is implied.
    pub fn register(&mut self, info: RegisterRequest) -> (r: Result<(), Error>)
        requires
            store_wf(old(self)@),
        ensures
            store_wf(final(self)@),
            r == register_result(old(self)@.users, info.mail@, info.name@),
            final(self)@.devices == old(self)@.devices,
            final(self)@.messages == old(self)@.messages,
            final(self)@.login_records == old(self)@.login_records,
            r is Err ==> final(self)@.users == old(self)@.users,
            r is Ok ==> register_ok_post(old(self)@.users, final(self)@.users, info),
    {
        if self.find_user(&info.mail).is_some() {
            return Err(Error::DuplicateMail);
        }
        if self.find_user_by_name(&info.name).is_some() {
            return Err(Error::DuplicateName);
        }
        let user = User {
            mail: info.mail,
            name: info.name,
            password: info.password,
            devices: Vec::new(),
        };
        let ghost gu = user;
        self.users.push(user);
        proof {
            let pre = old(self)@.users;
            let post = self@.users;
            assert(post == pre.push(gu));
            assert(post.drop_last() =~= pre);
            assert forall|i: int, j: int| 0 <= i < j < post.len() implies post[i].mail@
                != post[j].mail@ && post[i].name@ != post[j].name@ by {
                if j < post.len() - 1 {
                    assert(post[i] == pre[i]);
                    assert(post[j] == pre[j]);
                } else {
                    assert(post[i] == pre[i]);
                    assert(post[j] == gu);
                    if pre[i].mail@ == gu.mail@ {
                        assert(has_mail(pre, gu.mail@));
                    }
                    if pre[i].name@ == gu.name@ {
                        assert(has_name(pre, gu.name@));
                    }
                }
            }
            assert forall|i: int, j: int| 0 <= i < j < self@.devices.len() implies self@.devices[i].id@
                != self@.devices[j].id@ by {
                assert(self@.devices[i] == old(self)@.devices[i]);
                assert(self@.devices[j] == old(self)@.devices[j]);
            }
        }
        Ok(())
    }

    /// Authenticates a user and issues a session token: the deterministic
    /// digest of the mail address. A fresh login record is appended with
    /// `issued_at = now`, so logging in again extends the sliding expiry.
    /// Returns the token, the mail and the display name.
    pub fn login(&mut self, info: LoginRequest, now: i64) -> (r: Result<
        (String, String, String),
        Error,
    >)
        requires
            store_wf(old(self)@),
        ensures
            store_wf(final(self)@),
            final(self)@.users == old(self)@.users,
            final(self)@.devices == old(self)@.devices,
            final(self)@.messages == old(self)@.messages,
            r is Ok <==> login_result(old(self)@.users, info.mail@, info.password@) is Ok,
            r is Err ==> Err::<(), Error>(r->Err_0) == login_result(
                old(self)@.users,
                info.mail@,
                info.password@,
            ) && final(self)@.login_records == old(self)@.login_records,
            r is Ok ==> ({
                let out = r->Ok_0;
                &&& out.0@ == token_of(info.mail@)
                &&& out.1@ == info.mail@
                &&& out.2@ == old(self)@.users[user_index(old(self)@.users, info.mail@)].name@
                &&& final(self)@.login_records.len() == old(self)@.login_records.len() + 1
                &&& final(self)@.login_records.drop_last() == old(self)@.login_records
                &&& final(self)@.login_records.last().login_token@ == token_of(info.mail@)
                &&& final(self)@.login_records.last().login_time == now
            }),
    {
        let idx = match self.find_user(&info.mail) {
            Some(i) => i,
            None => {
                return Err(Error::NoSuchUser);
            },
        };
        proof {
            lemma_user_index_agrees(self@.users, info.mail@, idx as int);
        }
        if self.users[idx].password == info.password {
            let token = crate::token::blake2_str(self.users[idx].mail.as_str());
            let mail_out = self.users[idx].mail.clone();
            let name_out = self.users[idx].name.clone();
            let record = LoginRecord { login_token: token.clone(), login_time: now };
            self.login_records.push(record);
            proof {
                assert(final(self)@.login_records.drop_last() =~= old(self)@.login_records);
                lemma_wf_same(old(self)@, final(self)@);
            }
            Ok((token, mail_out, name_out))
        } else {
            Err(Error::WrongPassword)
        }
    }

    /// Whether `login_token` grants a live session at `now`. The most
    /// recently issued record for the token decides; when it has outlived
    /// the time-to-live it is evicted here and the check fails, so the
    /// check is destructive exactly on expiry.
    pub fn check_login(&mut self, login_token: &str, now: i64) -> (r: bool)
        ensures
            r == token_live(old(self)@.login_records, login_token@, now as int),
            final(self)@.users == old(self)@.users,
            final(self)@.devices == old(self)@.devices,
            final(self)@.messages == old(self)@.messages,
            records_after_check(
                old(self)@.login_records,
                final(self)@.login_records,
                login_token@,
                now as int,
            ),
    {
        let best = match self.find_latest_record(login_token) {
            Some(i) => i,
            None => {
                return false;
            },
        };
        let issued = self.login_records[best].login_time;
        if (now as i128) - (issued as i128) <= MAX_LOGIN_TIME_SECS as i128 {
            true
        } else {
            let ghost pre = self@.login_records;
            proof {
                assert forall|j: int|
                    0 <= j < pre.len() && pre[j].login_token@
                        == login_token@ implies !record_live(pre[j].login_time, now as int) by {
                    assert(pre[j].login_time <= issued);
                }
            }
            self.login_records.remove(best);
            false
        }
    }

    /// Ends the sessions for a token: every login record carrying it is
    /// dropped. An unknown token is a no-op, not an error.
    pub fn logout(&mut self, login_token: &str) -> (r: Result<(), Error>)
        ensures
            r == Ok::<(), Error>(()),
            final(self)@.users == old(self)@.users,
            final(self)@.devices == old(self)@.devices,
            final(self)@.messages == old(self)@.messages,
            final(self)@.login_records == records_without(
                old(self)@.login_records,
                login_token@,
            ),
    {
        let mut kept: Vec<LoginRecord> = Vec::new();
        let mut i: usize = 0;
        while i < self.login_records.len()
            invariant
                i <= self@.login_records.len(),
                kept@ == records_without(
                    self@.login_records.subrange(0, i as int),
                    login_token@,
                ),
            decreases self@.login_records.len() - i,
        {
            proof {
                let pre = self@.login_records.subrange(0, i as int);
                let cur = self@.login_records.subrange(0, i + 1 as int);
                assert(cur =~= pre.push(self@.login_records[i as int]));
                lemma_records_without_push(pre, self@.login_records[i as int], login_token@);
            }
            let record = &self.login_records[i];
            if !record.login_token.as_str().eq(login_token) {
                kept.push(record.clone());
            }
            i += 1;
        }
        proof {
            assert(self@.login_records.subrange(0, self@.login_records.len() as int)
                =~= self@.login_records);
        }
        self.login_records = kept;
        Ok(())
    }

    /// The index of a most recently issued record for this token, if any.
    fn find_latest_record(&self, login_token: &str) -> (r: Option<usize>)
        ensures
            r is None ==> !has_token(self@.login_records, login_token@),
            r is Some ==> ({
                let recs = self@.login_records;
                &&& 0 <= r->0 < recs.len()
                &&& recs[r->0 as int].login_token@ == login_token@
                &&& forall|j: int|
                    0 <= j < recs.len() && recs[j].login_token@ == login_token@
                        ==> recs[j].login_time <= recs[r->0 as int].login_time
            }),
    {
        let mut best: Option<usize> = None;
        let mut i: usize = 0;
        while i < self.login_records.len()
            invariant
                i <= self@.login_records.len(),
                best is None ==> forall|k: int|
                    0 <= k < i ==> self@.login_records[k].login_token@ != login_token@,
                best is Some ==> ({
                    let b = best->0 as int;
                    &&& 0 <= b < i as int
                    &&& self@.login_records[b].login_token@ == login_token@
                    &&& forall|k: int|
                        0 <= k < i && self@.login_records[k].login_token@ == login_token@
                            ==> self@.login_records[k].login_time
                            <= self@.login_records[b].login_time
                }),
            decreases self@.login_records.len() - i,
        {
            if self.login_records[i].login_token.as_str().eq(login_token) {
                match best {
                    None => {
                        best = Some(i);
                    },
                    Some(b) => {
                        if self.login_records[i].login_time > self.login_records[b].login_time {
                            best = Some(i);
                        }
                    },
                }
            }
            i += 1;
        }
        best
    }

    /// Appends one telemetry record. Only the ingestion pipeline calls
    /// this; no session is checked and nothing is ever rejected.
    pub fn insert_message(&mut self, msg: Message) -> (r: Result<(), Error>)
        ensures
            r == Ok::<(), Error>(()),
            final(self)@.users == old(self)@.users,
            final(self)@.devices == old(self)@.devices,
            final(self)@.login_records == old(self)@.login_records,
            final(self)@.messages == old(self)@.messages.push(msg),
    {
        self.messages.push(msg);
        Ok(())
    }

    /// How many stored messages a device has, clipped to `u32`.
    pub fn count(&self, device_id: &str) -> (r: u32)
        ensures
            r as nat == sat_u32(msgs_for_device(self@.messages, device_id@).len()),
    {
        let mut c: u32 = 0;
        let mut i: usize = 0;
        while i < self.messages.len()
            invariant
                i <= self@.messages.len(),
                c as nat == sat_u32(
                    msgs_for_device(self@.messages.subrange(0, i as int), device_id@).len(),
                ),
            decreases self@.messages.len() - i,
        {
            proof {
                let pre = self@.messages.subrange(0, i as int);
                let cur = self@.messages.subrange(0, i + 1 as int);
                assert(cur =~= pre.push(self@.messages[i as int]));
                lemma_msgs_for_device_push(pre, self@.messages[i as int], device_id@);
            }
            if self.messages[i].id.as_str().eq(device_id) {
                if c < u32::MAX {
                    c = c + 1;
                }
            }
            i += 1;
        }
        proof {
            assert(self@.messages.subrange(0, self@.messages.len() as int) =~= self@.messages);
        }
        c
    }

    /// How many stored messages with the alert flag a device has, clipped
    /// to `u32`.
    pub fn count_alert(&self, device_id: &str) -> (r: u32)
        ensures
            r as nat == sat_u32(alert_msgs_for_device(self@.messages, device_id@).len()),
    {
        let mut c: u32 = 0;
        let mut i: usize = 0;
        while i < self.messages.len()
            invariant
                i <= self@.messages.len(),
                c as nat == sat_u32(
                    alert_msgs_for_device(self@.messages.subrange(0, i as int), device_id@).len(),
                ),
            decreases self@.messages.len() - i,
        {
            proof {
                let pre = self@.messages.subrange(0, i as int);
                let cur = self@.messages.subrange(0, i + 1 as int);
                assert(cur =~= pre.push(self@.messages[i as int]));
                lemma_msgs_for_device_push(pre, self@.messages[i as int], device_id@);
            }
            if self.messages[i].alert && self.messages[i].id.as_str().eq(device_id) {
                if c < u32::MAX {
                    c = c + 1;
                }
            }
            i += 1;
        }
        proof {
            assert(self@.messages.subrange(0, self@.messages.len() as int) =~= self@.messages);
        }
        c
    }

    /// Links a device to a user: requires a live session and an existing
    /// user. A device record is created lazily the first time the id is
    /// seen (`name = id`, empty description); the id is then appended to
    /// the user's owned list unconditionally, so adding twice leaves two
    /// entries.
    pub fn create_device(&mut self, info: CreateDeviceRequest, now: i64) -> (r: Result<(), Error>)
        requires
            store_wf(old(self)@),
        ensures
            store_wf(final(self)@),
            final(self)@.messages == old(self)@.messages,
            records_after_check(
                old(self)@.login_records,
                final(self)@.login_records,
                info.login_token@,
                now as int,
            ),
            !token_live(old(self)@.login_records, info.login_token@, now as int) ==> r
                == Err::<(), Error>(Error::SessionExpired) && final(self)@.users == old(self)@.users && final(self)@.devices == old(self)@.devices,
            token_live(old(self)@.login_records, info.login_token@, now as int) ==> ({
                let users0 = old(self)@.users;
                let devices0 = old(self)@.devices;
                &&& final(self)@.login_records == old(self)@.login_records
                &&& !has_mail(users0, info.mail@) ==> r == Err::<(), Error>(Error::NoSuchUser)
                    && final(self)@.users == users0 && final(self)@.devices == devices0
                &&& has_mail(users0, info.mail@) ==> ({
                    let ui = user_index(users0, info.mail@);
                    &&& r == Ok::<(), Error>(())
                    &&& updated_only_at(users0, final(self)@.users, ui)
                    &&& user_with_device_added(users0[ui], final(self)@.users[ui], info.id)
                    &&& has_device(devices0, info.id@) ==> final(self)@.devices == devices0
                    &&& !has_device(devices0, info.id@) ==> final(self)@.devices.len()
                        == devices0.len() + 1 && final(self)@.devices.drop_last() == devices0
                        && final(self)@.devices.last().id@ == info.id@ && final(self)@.devices.last().name@ == info.id@ && final(self)@.devices.last().info@
                        == Seq::<char>::empty()
                })
            }),
    {
        if !self.check_login(info.login_token.as_str(), now) {
            return Err(Error::SessionExpired);
        }
        let uidx = match self.find_user(&info.mail) {
            Some(i) => i,
            None => {
                return Err(Error::NoSuchUser);
            },
        };
        proof {
            lemma_user_index_agrees(self@.users, info.mail@, uidx as int);
        }
        let ghost mid = self@;
        if self.find_device(&info.id).is_none() {
            let dev = Device { id: info.id.clone(), name: info.id.clone(), info: String::new() };
            let ghost gdev = dev;
            self.devices.push(dev);
            proof {
                assert(self@.devices.drop_last() =~= mid.devices);
                lemma_wf_device_push(mid, self@, gdev);
            }
        }
        let ghost mid2 = self@;
        let mut user = self.users.remove(uidx);
        user.devices.push(info.id);
        let ghost guser = user;
        self.users.insert(uidx, user);
        proof {
            assert forall|k: int| 0 <= k < mid2.users.len() && k != uidx as int implies self@.users[k]
                == mid2.users[k] by {
                if k < uidx as int {
                    assert(self@.users[k] == mid2.users.remove(uidx as int)[k]);
                } else {
                    assert(self@.users[k] == mid2.users.remove(uidx as int)[k - 1]);
                }
            }
            assert(self@.users.len() == mid2.users.len());
            assert(self@.users[uidx as int] == guser);
            lemma_wf_user_update(mid2, self@, uidx as int);
        }
        Ok(())
    }

    /// Unlinks a device from a user: requires a live session, an existing
    /// user, and that the user currently owns the device; every entry for
    /// the id is removed from the user's list. The device record itself
    /// survives, since other users may own it.
    pub fn remove_device(&mut self, info: RemoveDeviceRequest, now: i64) -> (r: Result<(), Error>)
        requires
            store_wf(old(self)@),
        ensures
            store_wf(final(self)@),
            final(self)@.messages == old(self)@.messages,
            final(self)@.devices == old(self)@.devices,
            records_after_check(
                old(self)@.login_records,
                final(self)@.login_records,
                info.login_token@,
                now as int,
            ),
            !token_live(old(self)@.login_records, info.login_token@, now as int) ==> r
                == Err::<(), Error>(Error::SessionExpired) && final(self)@.users == old(self)@.users,
            token_live(old(self)@.login_records, info.login_token@, now as int) ==> ({
                let users0 = old(self)@.users;
                let ui = user_index(users0, info.mail@);
                &&& final(self)@.login_records == old(self)@.login_records
                &&& !has_mail(users0, info.mail@) ==> r == Err::<(), Error>(Error::NoSuchUser)
                    && final(self)@.users == users0
                &&& has_mail(users0, info.mail@) && !owns_device(users0[ui], info.id@) ==> r
                    == Err::<(), Error>(Error::NoSuchOwnedDevice) && final(self)@.users == users0
                &&& has_mail(users0, info.mail@) && owns_device(users0[ui], info.id@) ==> r
                    == Ok::<(), Error>(()) && updated_only_at(users0, final(self)@.users, ui)
                    && user_with_device_removed(users0[ui], final(self)@.users[ui], info.id@)
            }),
    {
        if !self.check_login(info.login_token.as_str(), now) {
            return Err(Error::SessionExpired);
        }
        let uidx = match self.find_user(&info.mail) {
            Some(i) => i,
            None => {
                return Err(Error::NoSuchUser);
            },
        };
        proof {
            lemma_user_index_agrees(self@.users, info.mail@, uidx as int);
        }
        if !Self::ids_contain(&self.users[uidx].devices, &info.id) {
            return Err(Error::NoSuchOwnedDevice);
        }
        let ghost mid = self@;
        let mut user = self.users.remove(uidx);
        let kept = Self::ids_filtered(&user.devices, &info.id);
        user.devices = kept;
        let ghost guser = user;
        self.users.insert(uidx, user);
        proof {
            assert forall|k: int| 0 <= k < mid.users.len() && k != uidx as int implies self@.users[k]
                == mid.users[k] by {
                if k < uidx as int {
                    assert(self@.users[k] == mid.users.remove(uidx as int)[k]);
                } else {
                    assert(self@.users[k] == mid.users.remove(uidx as int)[k - 1]);
                }
            }
            assert(self@.users.len() == mid.users.len());
            assert(self@.users[uidx as int] == guser);
            lemma_wf_user_update(mid, self@, uidx as int);
        }
        Ok(())
    }

    /// Rewrites a device record's name and description: requires a live
    /// session and an existing device. Any authenticated caller may do
    /// this; ownership is not checked.
    pub fn modify_device(&mut self, info: ModifyDeviceRequest, now: i64) -> (r: Result<(), Error>)
        requires
            store_wf(old(self)@),
        ensures
            store_wf(final(self)@),
            final(self)@.messages == old(self)@.messages,
            final(self)@.users == old(self)@.users,
            records_after_check(
                old(self)@.login_records,
                final(self)@.login_records,
                info.login_token@,
                now as int,
            ),
            !token_live(old(self)@.login_records, info.login_token@, now as int) ==> r
                == Err::<(), Error>(Error::SessionExpired) && final(self)@.devices == old(self)@.devices,
            token_live(old(self)@.login_records, info.login_token@, now as int) ==> ({
                let devices0 = old(self)@.devices;
                let di = device_index(devices0, info.id@);
                &&& final(self)@.login_records == old(self)@.login_records
                &&& !has_device(devices0, info.id@) ==> r == Err::<(), Error>(Error::NoSuchDevice)
                    && final(self)@.devices == devices0
                &&& has_device(devices0, info.id@) ==> r == Ok::<(), Error>(())
                    && updated_only_at(devices0, final(self)@.devices, di) && final(self)@.devices[di].id@ == info.id@ && final(self)@.devices[di].name == info.name
                    && final(self)@.devices[di].info == info.info
            }),
    {
        if !self.check_login(info.login_token.as_str(), now) {
            return Err(Error::SessionExpired);
        }
        let didx = match self.find_device(&info.id) {
            Some(i) => i,
            None => {
                return Err(Error::NoSuchDevice);
            },
        };
        proof {
            lemma_device_index_agrees(self@.devices, info.id@, didx as int);
        }
        let ghost mid = self@;
        let mut dev = self.devices.remove(didx);
        dev.name = info.name;
        dev.info = info.info;
        let ghost gdev = dev;
        self.devices.insert(didx, dev);
        proof {
            assert forall|k: int|
                0 <= k < mid.devices.len() && k != didx as int implies self@.devices[k]
                == mid.devices[k] by {
                if k < didx as int {
                    assert(self@.devices[k] == mid.devices.remove(didx as int)[k]);
                } else {
                    assert(self@.devices[k] == mid.devices.remove(didx as int)[k - 1]);
                }
            }
            assert(self@.devices.len() == mid.devices.len());
            assert(self@.devices[didx as int] == gdev);
            lemma_wf_device_update(mid, self@, didx as int);
        }
        Ok(())
    }

    /// Reads a device record: requires a live session and an existing
    /// device. Returns its id, name and description.
    pub fn fetch_device(&mut self, info: FetchDeviceRequest, now: i64) -> (r: Result<
        (String, String, String),
        Error,
    >)
        requires
            store_wf(old(self)@),
        ensures
            store_wf(final(self)@),
            final(self)@.users == old(self)@.users,
            final(self)@.devices == old(self)@.devices,
            final(self)@.messages == old(self)@.messages,
            records_after_check(
                old(self)@.login_records,
                final(self)@.login_records,
                info.login_token@,
                now as int,
            ),
            !token_live(old(self)@.login_records, info.login_token@, now as int) ==> r is Err
                && r->Err_0 == Error::SessionExpired,
            token_live(old(self)@.login_records, info.login_token@, now as int) ==> ({
                let devices0 = old(self)@.devices;
                let di = device_index(devices0, info.id@);
                &&& final(self)@.login_records == old(self)@.login_records
                &&& !has_device(devices0, info.id@) ==> r is Err && r->Err_0
                    == Error::NoSuchDevice
                &&& has_device(devices0, info.id@) ==> r is Ok && r->Ok_0.0@ == devices0[di].id@
                    && r->Ok_0.1@ == devices0[di].name@ && r->Ok_0.2@ == devices0[di].info@
            }),
    {
        if !self.check_login(info.login_token.as_str(), now) {
            return Err(Error::SessionExpired);
        }
        proof {
            lemma_wf_same(old(self)@, self@);
        }
        let didx = match self.find_device(&info.id) {
            Some(i) => i,
            None => {
                return Err(Error::NoSuchDevice);
            },
        };
        proof {
            lemma_device_index_agrees(self@.devices, info.id@, didx as int);
        }
        let dev = &self.devices[didx];
        Ok((dev.id.clone(), dev.name.clone(), dev.info.clone()))
    }

    /// Reads a device's profile: its id, name and message counts, both
    /// counted over the telemetry store on every call. Requires a live
    /// session and an existing device.
    pub fn fetch_device_profile(&mut self, info: FetchDeviceProfileRequest, now: i64) -> (r:
        Result<DeviceInfo, Error>)
        requires
            store_wf(old(self)@),
        ensures
            store_wf(final(self)@),
            final(self)@.users == old(self)@.users,
            final(self)@.devices == old(self)@.devices,
            final(self)@.messages == old(self)@.messages,
            records_after_check(
                old(self)@.login_records,
                final(self)@.login_records,
                info.login_token@,
                now as int,
            ),
            !token_live(old(self)@.login_records, info.login_token@, now as int) ==> r is Err
                && r->Err_0 == Error::SessionExpired,
            token_live(old(self)@.login_records, info.login_token@, now as int) ==> ({
                &&& final(self)@.login_records == old(self)@.login_records
                &&& !has_device(old(self)@.devices, info.id@) ==> r is Err && r->Err_0
                    == Error::NoSuchDevice
                &&& has_device(old(self)@.devices, info.id@) ==> r is Ok && device_profile_ok(
                    old(self)@,
                    info.id@,
                    r->Ok_0,
                )
            }),
    {
        if !self.check_login(info.login_token.as_str(), now) {
            return Err(Error::SessionExpired);
        }
        proof {
            lemma_wf_same(old(self)@, self@);
        }
        let didx = match self.find_device(&info.id) {
            Some(i) => i,
            None => {
                return Err(Error::NoSuchDevice);
            },
        };
        proof {
            lemma_device_index_agrees(self@.devices, info.id@, didx as int);
        }
        let dev_id = self.devices[didx].id.clone();
        let dev_name = self.devices[didx].name.clone();
        let message_count = self.count(dev_id.as_str());
        let alert_message_count = self.count_alert(dev_id.as_str());
        Ok(DeviceInfo { id: dev_id, name: dev_name, message_count, alert_message_count })
    }

    /// Reads the profiles of every device the user owns, in stored order.
    /// Requires a live session and an existing user; if any owned id does
    /// not resolve to a device record the whole call fails, with no
    /// partial list.
    #[verifier::loop_isolation(false)]
    pub fn fetch_device_list(&mut self, info: FetchDeviceListRequest, now: i64) -> (r: Result<
        Vec<DeviceInfo>,
        Error,
    >)
        requires
            store_wf(old(self)@),
        ensures
            store_wf(final(self)@),
            final(self)@.users == old(self)@.users,
            final(self)@.devices == old(self)@.devices,
            final(self)@.messages == old(self)@.messages,
            records_after_check(
                old(self)@.login_records,
                final(self)@.login_records,
                info.login_token@,
                now as int,
            ),
            !token_live(old(self)@.login_records, info.login_token@, now as int) ==> r is Err
                && r->Err_0 == Error::SessionExpired,
            token_live(old(self)@.login_records, info.login_token@, now as int) ==> ({
                let users0 = old(self)@.users;
                let ui = user_index(users0, info.mail@);
                &&& final(self)@.login_records == old(self)@.login_records
                &&& !has_mail(users0, info.mail@) ==> r is Err && r->Err_0 == Error::NoSuchUser
                &&& has_mail(users0, info.mail@) ==> ({
                    let ids = users0[ui].devices@;
                    &&& r is Err ==> r->Err_0 == Error::NoSuchOwnedDevice && (exists|k: int|
                        0 <= k < ids.len() && !has_device(old(self)@.devices, ids[k]@))
                    &&& (forall|k: int|
                        0 <= k < ids.len() ==> has_device(old(self)@.devices, ids[k]@)) ==> r is Ok
                    &&& r is Ok ==> r->Ok_0@.len() == ids.len() && (forall|k: int|
                        0 <= k < ids.len() ==> device_profile_ok(old(self)@, ids[k]@, r->Ok_0@[k]))
                })
            }),
    {
        if !self.check_login(info.login_token.as_str(), now) {
            return Err(Error::SessionExpired);
        }
        proof {
            lemma_wf_same(old(self)@, self@);
        }
        let uidx = match self.find_user(&info.mail) {
            Some(i) => i,
            None => {
                return Err(Error::NoSuchUser);
            },
        };
        proof {
            lemma_user_index_agrees(self@.users, info.mail@, uidx as int);
        }
        let ghost snap = self@;
        let ghost ids = self@.users[uidx as int].devices@;
        let mut result: Vec<DeviceInfo> = Vec::new();
        let mut k: usize = 0;
        while k < self.users[uidx].devices.len()
            invariant
                self@ == snap,
                0 <= uidx < self@.users.len(),
                ids == self@.users[uidx as int].devices@,
                k <= ids.len(),
                result@.len() == k,
                forall|t: int| 0 <= t < k ==> device_profile_ok(snap, ids[t]@, result@[t]),
                forall|p: int, q: int|
                    0 <= p < q < self@.devices.len() ==> self@.devices[p].id@
                        != self@.devices[q].id@,
            decreases ids.len() - k,
        {
            let id_k = self.users[uidx].devices[k].clone();
            let didx = match self.find_device(&id_k) {
                Some(i) => i,
                None => {
                    return Err(Error::NoSuchOwnedDevice);
                },
            };
            proof {
                lemma_device_index_agrees(self@.devices, id_k@, didx as int);
            }
            let dev_id = self.devices[didx].id.clone();
            let dev_name = self.devices[didx].name.clone();
            let message_count = self.count(dev_id.as_str());
            let alert_message_count = self.count_alert(dev_id.as_str());
            result.push(
                DeviceInfo { id: dev_id, name: dev_name, message_count, alert_message_count },
            );
            k += 1;
        }
        Ok(result)
    }

    /// Queries a device's telemetry: the messages whose timestamp lies in
    /// the inclusive range, ordered by timestamp descending, skipping
    /// `first_index` matches and returning at most `limit`, together with
    /// the total number of matches in the range, independent of the
    /// pagination window. Requires a live session.
    #[verifier::loop_isolation(false)]
    pub fn fetch_message_list(&mut self, info: FetchMessageListRequest, now: i64) -> (r: Result<
        (Vec<MessageInfo>, usize),
        Error,
    >)
        requires
            store_wf(old(self)@),
        ensures
            store_wf(final(self)@),
            final(self)@.users == old(self)@.users,
            final(self)@.devices == old(self)@.devices,
            final(self)@.messages == old(self)@.messages,
            records_after_check(
                old(self)@.login_records,
                final(self)@.login_records,
                info.login_token@,
                now as int,
            ),
            r is Err <==> !token_live(old(self)@.login_records, info.login_token@, now as int),
            r is Err ==> r->Err_0 == Error::SessionExpired,
            r is Ok ==> final(self)@.login_records == old(self)@.login_records,
            r is Ok ==> ({
                let out = r->Ok_0;
                let matches = msgs_in_range(
                    old(self)@.messages,
                    info.id@,
                    info.start_timestamp,
                    info.end_timestamp,
                );
                &&& out.1 == matches.len()
                &&& exists|s: Seq<Message>|
                    #![auto]
                    sorted_desc(s) && s.to_multiset() == matches.to_multiset() && out.0@ == page_of(
                        s,
                        info.first_index as int,
                        info.limit as int,
                    ).map_values(|m: Message| info_of(m))
                &&& forall|a: int, b: int|
                    0 <= a <= b < out.0@.len() ==> out.0@[a].timestamp >= out.0@[b].timestamp
                &&& forall|t: int|
                    0 <= t < out.0@.len() ==> out.0@[t].id@ == info.id@ && info.start_timestamp
                        <= out.0@[t].timestamp && out.0@[t].timestamp <= info.end_timestamp
            }),
    {
        if !self.check_login(info.login_token.as_str(), now) {
            return Err(Error::SessionExpired);
        }
        proof {
            lemma_wf_same(old(self)@, self@);
        }
        let ghost t0 = info.start_timestamp;
        let ghost t1 = info.end_timestamp;
        let ghost matches = msgs_in_range(self@.messages, info.id@, t0, t1);
        let mut found: Vec<Message> = Vec::new();
        let mut i: usize = 0;
        while i < self.messages.len()
            invariant
                i <= self@.messages.len(),
                found@ == msgs_in_range(self@.messages.subrange(0, i as int), info.id@, t0, t1),
            decreases self@.messages.len() - i,
        {
            proof {
                let pre = self@.messages.subrange(0, i as int);
                let cur = self@.messages.subrange(0, i + 1 as int);
                assert(cur =~= pre.push(self@.messages[i as int]));
                lemma_msgs_in_range_push(pre, self@.messages[i as int], info.id@, t0, t1);
            }
            let keep = self.messages[i].id.as_str().eq(info.id.as_str())
                && info.start_timestamp <= self.messages[i].timestamp && self.messages[i].timestamp
                <= info.end_timestamp;
            if keep {
                let m = self.messages[i].clone();
                found.push(m);
            }
            i += 1;
        }
        proof {
            assert(self@.messages.subrange(0, self@.messages.len() as int) =~= self@.messages);
            assert(found@ == matches);
        }
        let total = found.len();
        let mut sorted_v: Vec<Message> = Vec::new();
        proof {
            assert(found@.subrange(0, 0) =~= sorted_v@);
        }
        let mut f: usize = 0;
        while f < found.len()
            invariant
                f <= found@.len(),
                sorted_v@.len() == f,
                sorted_desc(sorted_v@),
                sorted_v@.to_multiset() == found@.subrange(0, f as int).to_multiset(),
                forall|t: int|
                    0 <= t < sorted_v@.len() ==> msg_in_query(
                        #[trigger] sorted_v@[t],
                        info.id@,
                        t0,
                        t1,
                    ),
            decreases found@.len() - f,
        {
            broadcast use vstd::seq_lib::group_to_multiset_ensures;

            let m = found[f].clone();
            proof {
                assert(matches[f as int] == m);
                Seq::lemma_filter_pred(
                    self@.messages,
                    |x: Message| msg_in_query(x, info.id@, t0, t1),
                    f as int,
                );
            }
            let mut j: usize = 0;
            while j < sorted_v.len() && sorted_v[j].timestamp >= m.timestamp
                invariant
                    j <= sorted_v@.len(),
                    forall|t: int| 0 <= t < j ==> sorted_v@[t].timestamp >= m.timestamp,
                decreases sorted_v@.len() - j,
            {
                j += 1;
            }
            let ghost pre_sorted = sorted_v@;
            sorted_v.insert(j, m);
            proof {
                let post = sorted_v@;
                assert(post == pre_sorted.insert(j as int, m));
                assert forall|t: int| 0 <= t < post.len() implies post[t]
                    == if t < j as int {
                    pre_sorted[t]
                } else if t == j as int {
                    m
                } else {
                    pre_sorted[t - 1]
                } by {
                    pre_sorted.insert_ensures(j as int, m);
                }
                assert forall|a: int, b: int| 0 <= a <= b < post.len() implies post[a].timestamp
                    >= post[b].timestamp by {
                    if (j as int) < pre_sorted.len() {
                        assert(pre_sorted[j as int].timestamp < m.timestamp);
                    }
                }
                let prev = found@.subrange(0, f as int);
                let cur = found@.subrange(0, f + 1 as int);
                assert(cur =~= prev.push(found@[f as int]));
                assert(post.to_multiset() == cur.to_multiset());
            }
            f += 1;
        }
        proof {
            assert(found@.subrange(0, found@.len() as int) =~= found@);
        }
        let start = if info.first_index > sorted_v.len() {
            sorted_v.len()
        } else {
            info.first_index
        };
        let remaining = sorted_v.len() - start;
        let take_n = if info.limit > remaining {
            remaining
        } else {
            info.limit
        };
        let end = start + take_n;
        let mut out: Vec<MessageInfo> = Vec::new();
        let mut t: usize = start;
        while t < end
            invariant
                start <= t <= end,
                end <= sorted_v@.len(),
                out@.len() == t - start,
                forall|q: int|
                    0 <= q < out@.len() ==> out@[q] == info_of(sorted_v@[start as int + q]),
            decreases end - t,
        {
            let m = &sorted_v[t];
            out.push(
                MessageInfo {
                    id: m.id.clone(),
                    info: m.info.clone(),
                    value: m.value,
                    alert: m.alert,
                    lng: m.lng,
                    lat: m.lat,
                    timestamp: m.timestamp,
                },
            );
            t += 1;
        }
        proof {
            let fi = info.first_index as int;
            let lim = info.limit as int;
            let page = page_of(sorted_v@, fi, lim);
            assert(page =~= sorted_v@.subrange(start as int, end as int));
            assert(out@ =~= page.map_values(|m: Message| info_of(m)));
            assert(sorted_desc(sorted_v@) && sorted_v@.to_multiset() == matches.to_multiset()
                && out@ == page_of(sorted_v@, fi, lim).map_values(|m: Message| info_of(m)));
        }
        Ok((out, total))
    }

    /// The index of the device record with this id, if any.
    fn find_device(&self, id: &String) -> (r: Option<usize>)
        ensures
            r is Some ==> 0 <= r->0 < self@.devices.len() && self@.devices[r->0 as int].id@ == id@,
            r is None ==> !has_device(self@.devices, id@),
    {
        let mut i: usize = 0;
        while i < self.devices.len()
            invariant
                i <= self@.devices.len(),
                forall|k: int| 0 <= k < i ==> self@.devices[k].id@ != id@,
            decreases self@.devices.len() - i,
        {
            if self.devices[i].id == *id {
                return Some(i);
            }
            i += 1;
        }
        None
    }

    /// Whether a device-id list contains this id.
    fn ids_contain(ids: &Vec<String>, id: &String) -> (b: bool)
        ensures
            b == contains_id(ids@, id@),
    {
        let mut i: usize = 0;
        while i < ids.len()
            invariant
                i <= ids@.len(),
                forall|k: int| 0 <= k < i ==> ids@[k]@ != id@,
            decreases ids@.len() - i,
        {
            if ids[i] == *id {
                return true;
            }
            i += 1;
        }
        false
    }

    /// The device-id list with every entry for `id` removed.
    fn ids_filtered(ids: &Vec<String>, id: &String) -> (r: Vec<String>)
        ensures
            r@ == ids_without(ids@, id@),
    {
        let mut kept: Vec<String> = Vec::new();
        let mut i: usize = 0;
        while i < ids.len()
            invariant
                i <= ids@.len(),
                kept@ == ids_without(ids@.subrange(0, i as int), id@),
            decreases ids@.len() - i,
        {
            proof {
                let pre = ids@.subrange(0, i as int);
                let cur = ids@.subrange(0, i + 1 as int);
                assert(cur =~= pre.push(ids@[i as int]));
                lemma_ids_without_push(pre, ids@[i as int], id@);
            }
            if !(ids[i] == *id) {
                kept.push(ids[i].clone());
            }
            i += 1;
        }
        proof {
            assert(ids@.subrange(0, ids@.len() as int) =~= ids@);
        }
        kept
    }

    /// The index of the user with this mail address, if any.
    fn find_user(&self, mail: &String) -> (r: Option<usize>)
        ensures
            r is Some ==> 0 <= r->0 < self@.users.len() && self@.users[r->0 as int].mail@ == mail@,
            r is None ==> !has_mail(self@.users, mail@),
    {
        let mut i: usize = 0;
        while i < self.users.len()
            invariant
                i <= self@.users.len(),
                forall|k: int| 0 <= k < i ==> self@.users[k].mail@ != mail@,
            decreases self@.users.len() - i,
        {
            if self.users[i].mail == *mail {
                return Some(i);
            }
            i += 1;
        }
        None
    }

    /// The index of the user with this display name, if any.
    fn find_user_by_name(&self, name: &String) -> (r: Option<usize>)
        ensures
            r is Some ==> 0 <= r->0 < self@.users.len() && self@.users[r->0 as int].name@ == name@,
            r is None ==> !has_name(self@.users, name@),
    {
        let mut i: usize = 0;
        while i < self.users.len()
            invariant
                i <= self@.users.len(),
                forall|k: int| 0 <= k < i ==> self@.users[k].name@ != name@,
            decreases self@.users.len() - i,
        {
            if self.users[i].name == *name {
                return Some(i);
            }
            i += 1;
        }
        None
    }
}

} // verus!
