//! Ingestion: decoded publish/subscribe telemetry events become stored
//! messages. The pipeline never consults the session store and never
//! fails: a malformed payload only skips that one event.

use crate::database::{Database, Message};
use vstd::prelude::*;

verus! {

/// One inbound telemetry event as the transport delivers it: `alert` is
/// still the wire's 0/1 number, the position raw IEEE-754 bit patterns.
pub struct MessageMqtt {
    pub id: String,
    pub info: String,
    pub value: i32,
    pub alert: u8,
    pub lng: u64,
    pub lat: u64,
    pub timestamp: i64,
}

/// The stored form of an inbound event: the alert number is coerced to a
/// flag (any nonzero value alerts).
pub fn message_of_event(event: MessageMqtt) -> (m: Message)
    ensures
        m.id == event.id,
        m.info == event.info,
        m.value == event.value,
        m.alert == (event.alert != 0),
        m.lng == event.lng,
        m.lat == event.lat,
        m.timestamp == event.timestamp,
{
    Message::new(
        event.id,
        event.info,
        event.value,
        event.alert != 0,
        event.lng,
        event.lat,
        event.timestamp,
    )
}

/// One ingestion step. A decoded event is stored unconditionally — the
/// device need not be registered. A payload that failed to decode
/// (`None`) leaves the store unchanged; the loop never stops on one bad
/// record.
pub fn ingest_event(db: &mut Database, event: Option<MessageMqtt>)
    ensures
        final(db)@.users == old(db)@.users,
        final(db)@.devices == old(db)@.devices,
        final(db)@.login_records == old(db)@.login_records,
        event is None ==> final(db)@.messages == old(db)@.messages,
        event is Some ==> ({
            let ev = event->0;
            &&& final(db)@.messages.len() == old(db)@.messages.len() + 1
            &&& final(db)@.messages.drop_last() == old(db)@.messages
            &&& final(db)@.messages.last().id == ev.id
            &&& final(db)@.messages.last().info == ev.info
            &&& final(db)@.messages.last().value == ev.value
            &&& final(db)@.messages.last().alert == (ev.alert != 0)
            &&& final(db)@.messages.last().lng == ev.lng
            &&& final(db)@.messages.last().lat == ev.lat
            &&& final(db)@.messages.last().timestamp == ev.timestamp
        }),
{
    match event {
        None => {
        },
        Some(ev) => {
            let m = message_of_event(ev);
            let _ = db.insert_message(m);
            proof {
                assert(final(db)@.messages.drop_last() =~= old(db)@.messages);
            }
        },
    }
}

} // verus!
