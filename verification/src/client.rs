//! A connection to one exchange stream, relaying its candles to a room.
use vstd::prelude::*;
use vstd::string::*;
use crate::datetime::{parse_utc, utc_instant};
use crate::json::{
    json_at, json_element, json_eq_str, json_get, json_is_str, json_member, json_parse,
    json_to_string, parse_json,
};
use crate::text::{byte_len, byte_slice, byte_slice_string, decimal, i64_decimal, on_boundary, same_text};
use crate::ticks::{cuttable_timestamp, ohlc_json, StringGenericOHLC};
use crate::rooms::{relay_recipients, rooms_after_relay, RoomUsersRegistry, UserStatusRegistry};

verus! {

/// What a feed connection knows: its room, the exchange and pair it follows,
/// and the close price and volume of the last candle it saw.
pub struct Client {
    pub room_id: Option<String>,
    pub room_nb: u32,
    pub pair: String,
    pub broker: String,
    pub oldp: String,
    pub oldv: String,
}

/// The subscription that the HitBTC stream expects for a pair.
pub open spec fn hitbtc_subscription(pair: Seq<char>) -> Seq<char> {
    "{ \"method\": \"subscribeCandles\",\"params\": {\"symbol\": \""@ + pair
        + "\",\"period\":\"M1\"},\"id\": 123 }"@
}

/// The message sent when the exchange connection opens: HitBTC needs a
/// subscription, the other exchanges need nothing.
pub open spec fn opening_message(broker: Seq<char>, pair: Seq<char>) -> Option<Seq<char>> {
    if broker == "hitbtc"@ {
        Some(hitbtc_subscription(pair))
    } else {
        None
    }
}

pub open spec fn opt_view(s: Option<String>) -> Option<Seq<char>> {
    match s {
        Some(x) => Some(x@),
        None => None,
    }
}

/// The text of the whole document received.
pub open spec fn json_root(raw: Seq<char>) -> Seq<char> {
    json_parse(raw)->0
}

/// A field of a Binance kline event: `doc["k"][key]`.
pub open spec fn kline_field(raw: Seq<char>, key: Seq<char>) -> Seq<char> {
    json_member(json_member(json_root(raw), "k"@), key)
}

/// A field of a HitBTC candle update: `doc["params"]["data"][0][key]`.
pub open spec fn candle_field(raw: Seq<char>, key: Seq<char>) -> Seq<char> {
    json_member(json_element(json_member(json_member(json_root(raw), "params"@), "data"@), 0), key)
}

/// The text of a candle's timestamp with its first and last byte (the
/// quotes) removed.
pub open spec fn candle_time(raw: Seq<char>) -> Seq<char> {
    let t = candle_field(raw, "timestamp"@);
    byte_slice(t, 1, byte_len(t) - 1)
}

/// Whether the quotes can be cut off a timestamp text.
pub open spec fn unquotable(t: Seq<char>) -> bool {
    byte_len(t) >= 2 && on_boundary(t, 1) && on_boundary(t, byte_len(t) - 1)
}

/// The candle's time in milliseconds since the epoch.
pub open spec fn candle_ms(raw: Seq<char>) -> int {
    (utc_instant(candle_time(raw))->0).0 * 1000
}

/// Whether a candle differs from the last one seen, by close price or volume.
pub open spec fn candle_changed(oldp: Seq<char>, oldv: Seq<char>, c: Seq<char>, v: Seq<char>) -> bool {
    oldp != c || oldv != v
}

/// A HitBTC candle update: forwarded (as JSON) only when its close price or
/// volume changed; either way it becomes the last candle seen.
/// Result: (message, new last close price, new last volume).
pub open spec fn candle_result(
    oldp: Seq<char>,
    oldv: Seq<char>,
    ts: Seq<char>,
    o: Seq<char>,
    h: Seq<char>,
    l: Seq<char>,
    c: Seq<char>,
    v: Seq<char>,
) -> (Option<Seq<char>>, Seq<char>, Seq<char>) {
    if candle_changed(oldp, oldv, c, v) {
        (Some(ohlc_json(ts, o, h, l, c, v)), c, v)
    } else {
        (None, c, v)
    }
}

/// Whether a HitBTC document acknowledges a request (`result` is `true`).
pub open spec fn is_ack(raw: Seq<char>) -> bool {
    json_member(json_root(raw), "result"@) == "true"@
}

pub open spec fn is_method(raw: Seq<char>, m: Seq<char>) -> bool {
    json_is_str(json_member(json_root(raw), "method"@), m)
}

/// What `get_universal_msg` does with a raw exchange message, given the
/// broker and the last candle seen: (message to relay, new last close price,
/// new last volume).
pub open spec fn universal(broker: Seq<char>, oldp: Seq<char>, oldv: Seq<char>, raw: Seq<char>)
    -> (Option<Seq<char>>, Seq<char>, Seq<char>) {
    if broker == "binance"@ {
        let c = kline_field(raw, "c"@);
        let v = kline_field(raw, "v"@);
        (
            Some(
                ohlc_json(
                    kline_field(raw, "t"@),
                    kline_field(raw, "o"@),
                    kline_field(raw, "h"@),
                    kline_field(raw, "l"@),
                    c,
                    v,
                ),
            ),
            c,
            v,
        )
    } else if broker == "hitbtc"@ {
        if is_ack(raw) || is_method(raw, "snapshotCandles"@) || !is_method(raw, "updateCandles"@) {
            (None, oldp, oldv)
        } else {
            candle_result(
                oldp,
                oldv,
                decimal(candle_ms(raw)),
                candle_field(raw, "open"@),
                candle_field(raw, "max"@),
                candle_field(raw, "min"@),
                candle_field(raw, "close"@),
                candle_field(raw, "volume"@),
            )
        }
    } else {
        (None, oldp, oldv)
    }
}

/// The messages on which `get_universal_msg` completes: the document parses,
/// and every timestamp it cuts can be cut and parsed.
pub open spec fn universal_defined(broker: Seq<char>, oldp: Seq<char>, oldv: Seq<char>, raw: Seq<char>) -> bool {
    if broker == "binance"@ {
        json_parse(raw) is Some && cuttable_timestamp(kline_field(raw, "t"@))
    } else if broker == "hitbtc"@ {
        json_parse(raw) is Some && (is_ack(raw) || is_method(raw, "snapshotCandles"@) || !is_method(
            raw,
            "updateCandles"@,
        ) || {
            &&& unquotable(candle_field(raw, "timestamp"@))
            &&& utc_instant(candle_time(raw)) is Some
            &&& candle_changed(oldp, oldv, candle_field(raw, "close"@), candle_field(raw, "volume"@))
                ==> cuttable_timestamp(decimal(candle_ms(raw)))
        })
    } else {
        true
    }
}

impl Client {
    /// The message to send once the exchange connection is open, if any.
    pub fn on_open(&self) -> (m: Option<String>)
        ensures
            opt_view(m) == opening_message(self.broker@, self.pair@),
    {
        if same_text(self.broker.as_str(), "hitbtc") {
            let mut json = "{ \"method\": \"subscribeCandles\",\"params\": {\"symbol\": \"".to_string();
            json.append(self.pair.as_str());
            json.append("\",\"period\":\"M1\"},\"id\": 123 }");
            Some(json)
        } else {
            None
        }
    }

    /// A Binance kline becomes the last candle seen and is always relayed.
    pub fn kline_update(
        &mut self,
        ts: String,
        o: String,
        h: String,
        l: String,
        c: String,
        v: String,
    ) -> (m: String)
        requires
            cuttable_timestamp(ts@),
        ensures
            m@ == ohlc_json(ts@, o@, h@, l@, c@, v@),
            final(self).oldp@ == c@,
            final(self).oldv@ == v@,
            final(self).room_id == old(self).room_id,
            final(self).room_nb == old(self).room_nb,
            final(self).pair == old(self).pair,
            final(self).broker == old(self).broker,
    {
        self.oldp = c.clone();
        self.oldv = v.clone();
        let candle = StringGenericOHLC { ts, o, l, h, c, v };
        candle.to_json()
    }

    /// A HitBTC candle update: relayed only when it differs from the last
    /// candle seen by close price or volume.
    pub fn candle_update(
        &mut self,
        ts: String,
        o: String,
        h: String,
        l: String,
        c: String,
        v: String,
    ) -> (m: Option<String>)
        requires
            candle_changed(old(self).oldp@, old(self).oldv@, c@, v@) ==> cuttable_timestamp(ts@),
        ensures
            (opt_view(m), final(self).oldp@, final(self).oldv@) == candle_result(
                old(self).oldp@,
                old(self).oldv@,
                ts@,
                o@,
                h@,
                l@,
                c@,
                v@,
            ),
            final(self).room_id == old(self).room_id,
            final(self).room_nb == old(self).room_nb,
            final(self).pair == old(self).pair,
            final(self).broker == old(self).broker,
    {
        if self.oldp != c || self.oldv != v {
            self.oldp = c.clone();
            self.oldv = v.clone();
            let candle = StringGenericOHLC { ts, o, l, h, c, v };
            Some(candle.to_json())
        } else {
            self.oldp = c;
            self.oldv = v;
            None
        }
    }
}

/// Turns a raw exchange message into the candle JSON relayed to browsers,
/// remembering the last candle seen.
pub fn get_universal_msg(client: &mut Client, rawmsg: &String) -> (m: Option<String>)
    requires
        universal_defined(old(client).broker@, old(client).oldp@, old(client).oldv@, rawmsg@),
    ensures
        (opt_view(m), final(client).oldp@, final(client).oldv@) == universal(
            old(client).broker@,
            old(client).oldp@,
            old(client).oldv@,
            rawmsg@,
        ),
        final(client).room_id == old(client).room_id,
        final(client).room_nb == old(client).room_nb,
        final(client).pair == old(client).pair,
        final(client).broker == old(client).broker,
{
    if same_text(client.broker.as_str(), "binance") {
        let tick = match parse_json(rawmsg.as_str()) {
            Ok(t) => t,
            Err(_) => {
                proof {
                    assert(false);
                }
                return None;
            },
        };
        let k = json_get(&tick, "k");
        let ts = json_to_string(json_get(k, "t"));
        let c = json_to_string(json_get(k, "c"));
        let v = json_to_string(json_get(k, "v"));
        let o = json_to_string(json_get(k, "o"));
        let h = json_to_string(json_get(k, "h"));
        let l = json_to_string(json_get(k, "l"));
        Some(client.kline_update(ts, o, h, l, c, v))
    } else if same_text(client.broker.as_str(), "hitbtc") {
        let tick = match parse_json(rawmsg.as_str()) {
            Ok(t) => t,
            Err(_) => {
                proof {
                    assert(false);
                }
                return None;
            },
        };
        let result = json_to_string(json_get(&tick, "result"));
        if result == "true".to_string() {
            None
        } else if json_eq_str(json_get(&tick, "method"), "snapshotCandles") {
            None
        } else if json_eq_str(json_get(&tick, "method"), "updateCandles") {
            let candle = json_at(json_get(json_get(&tick, "params"), "data"), 0);
            let tsstr = json_to_string(json_get(candle, "timestamp"));
            let len = tsstr.as_str().as_bytes().len();
            let inner = byte_slice_string(tsstr.as_str(), 1, len - 1);
            let (secs, _nanos) = match parse_utc(inner.as_str()) {
                Ok(t) => t,
                Err(_) => {
                    proof {
                        assert(false);
                    }
                    return None;
                },
            };
            let tsi: i64 = secs * 1000;
            let ts = i64_decimal(tsi);
            let c = json_to_string(json_get(candle, "close"));
            let o = json_to_string(json_get(candle, "open"));
            let h = json_to_string(json_get(candle, "max"));
            let l = json_to_string(json_get(candle, "min"));
            let v = json_to_string(json_get(candle, "volume"));
            client.candle_update(ts, o, h, l, c, v)
        } else {
            None
        }
    } else {
        None
    }
}


/// Whether a timestamp text can be cut to seconds (see `cuttable_timestamp`).
pub fn is_cuttable_timestamp(ts: &str) -> (r: bool)
    ensures
        r == cuttable_timestamp(ts@),
{
    let len = ts.as_bytes().len();
    len >= 3 && ts.is_char_boundary(len - 3)
}

/// Whether the quotes can be cut off a timestamp text (see `unquotable`).
pub fn is_unquotable(t: &str) -> (r: bool)
    ensures
        r == unquotable(t@),
{
    let len = t.as_bytes().len();
    len >= 2 && t.is_char_boundary(1) && t.is_char_boundary(len - 1)
}

/// Whether `get_universal_msg` completes on this message: it makes the same
/// calls and tests what they return.
pub fn universal_ready(client: &Client, rawmsg: &String) -> (r: bool)
    ensures
        r == universal_defined(client.broker@, client.oldp@, client.oldv@, rawmsg@),
{
    if same_text(client.broker.as_str(), "binance") {
        match parse_json(rawmsg.as_str()) {
            Err(_) => false,
            Ok(tick) => {
                let ts = json_to_string(json_get(json_get(&tick, "k"), "t"));
                is_cuttable_timestamp(ts.as_str())
            },
        }
    } else if same_text(client.broker.as_str(), "hitbtc") {
        match parse_json(rawmsg.as_str()) {
            Err(_) => false,
            Ok(tick) => {
                let result = json_to_string(json_get(&tick, "result"));
                if result == "true".to_string() {
                    true
                } else if json_eq_str(json_get(&tick, "method"), "snapshotCandles") {
                    true
                } else if !json_eq_str(json_get(&tick, "method"), "updateCandles") {
                    true
                } else {
                    let candle = json_at(json_get(json_get(&tick, "params"), "data"), 0);
                    let tsstr = json_to_string(json_get(candle, "timestamp"));
                    if !is_unquotable(tsstr.as_str()) {
                        false
                    } else {
                        let len = tsstr.as_str().as_bytes().len();
                        let inner = byte_slice_string(tsstr.as_str(), 1, len - 1);
                        match parse_utc(inner.as_str()) {
                            Err(_) => false,
                            Ok((secs, _nanos)) => {
                                let c = json_to_string(json_get(candle, "close"));
                                let v = json_to_string(json_get(candle, "volume"));
                                if client.oldp != c || client.oldv != v {
                                    let ts = i64_decimal(secs * 1000);
                                    is_cuttable_timestamp(ts.as_str())
                                } else {
                                    true
                                }
                            },
                        }
                    }
                }
            },
        }
    } else {
        true
    }
}

/// `get_universal_msg` where it completes; `None`, with the client left as
/// it was, on a message it cannot complete on (a document that does not
/// parse, or a timestamp that cannot be cut or read).
pub fn try_universal_msg(client: &mut Client, rawmsg: &String) -> (m: Option<Option<String>>)
    ensures
        m is None <==> !universal_defined(
            old(client).broker@,
            old(client).oldp@,
            old(client).oldv@,
            rawmsg@,
        ),
        m is None ==> *final(client) == *old(client),
        m matches Some(r) ==> (opt_view(r), final(client).oldp@, final(client).oldv@) == universal(
            old(client).broker@,
            old(client).oldp@,
            old(client).oldv@,
            rawmsg@,
        ),
        final(client).room_id == old(client).room_id,
        final(client).room_nb == old(client).room_nb,
        final(client).pair == old(client).pair,
        final(client).broker == old(client).broker,
{
    if universal_ready(client, rawmsg) {
        Some(get_universal_msg(client, rawmsg))
    } else {
        None
    }
}


/// A candle to relay: the room it is for, the JSON to send and the users to
/// send it to.
pub struct Broadcast {
    pub room_id: String,
    pub message: String,
    pub recipients: Vec<u32>,
}

/// The messages on which `Client::on_message` completes: `get_universal_msg`
/// completes, and a relayed candle has a room to name.
pub open spec fn relay_defined(client: Client, raw: Seq<char>) -> bool {
    &&& universal_defined(client.broker@, client.oldp@, client.oldv@, raw)
    &&& universal(client.broker@, client.oldp@, client.oldv@, raw).0 is Some ==> client.room_id is Some
}

/// How a message changes a room: nothing is relayed and the room is left as
/// it was when no candle is to be relayed; otherwise the candle goes to the
/// room's connected members and the members known to have left are removed.
pub open spec fn relayed(
    client: Client,
    raw: Seq<char>,
    rooms: Option<Map<u32, Seq<u32>>>,
    statuses: Map<u32, bool>,
    b: Option<Broadcast>,
    rooms_after: Option<Map<u32, Seq<u32>>>,
) -> bool {
    match universal(client.broker@, client.oldp@, client.oldv@, raw).0 {
        None => b is None && rooms_after == rooms,
        Some(msg) => match b {
            Some(bc) => {
                &&& Some(bc.room_id) == client.room_id
                &&& bc.message@ == msg
                &&& bc.recipients@ == relay_recipients(rooms, client.room_nb, statuses)
                &&& rooms_after == rooms_after_relay(rooms, client.room_nb, statuses)
            },
            None => false,
        },
    }
}

impl Client {
    /// A feed connection for a room that has seen no candle yet.
    pub fn new(broker: String, pair: String, room_id: Option<String>, room_nb: u32) -> (c: Client)
        ensures
            c.broker == broker,
            c.pair == pair,
            c.room_id == room_id,
            c.room_nb == room_nb,
            c.oldp@ == Seq::<char>::empty(),
            c.oldv@ == Seq::<char>::empty(),
    {
        Client { room_id, room_nb, pair, broker, oldp: String::new(), oldv: String::new() }
    }

    /// An identical copy.
    pub fn duplicate(&self) -> (c: Client)
        ensures
            c == *self,
    {
        let room_id = match &self.room_id {
            Some(r) => Some(r.clone()),
            None => None,
        };
        Client {
            room_id,
            room_nb: self.room_nb,
            pair: self.pair.clone(),
            broker: self.broker.clone(),
            oldp: self.oldp.clone(),
            oldv: self.oldv.clone(),
        }
    }

    /// A message from the exchange: the candle it carries, if any is to be
    /// relayed, goes to the connected members of the client's room; members
    /// known to have left are removed from the room.
    pub fn on_message(
        &mut self,
        rawmsg: &String,
        users: &UserStatusRegistry,
        room_users: &mut RoomUsersRegistry,
    ) -> (b: Option<Broadcast>)
        requires
            relay_defined(*old(self), rawmsg@),
        ensures
            final(self).oldp@ == universal(old(self).broker@, old(self).oldp@, old(self).oldv@, rawmsg@).1,
            final(self).oldv@ == universal(old(self).broker@, old(self).oldp@, old(self).oldv@, rawmsg@).2,
            relayed(*old(self), rawmsg@, old(room_users)@, users@, b, final(room_users)@),
            final(self).room_id == old(self).room_id,
            final(self).room_nb == old(self).room_nb,
            final(self).pair == old(self).pair,
            final(self).broker == old(self).broker,
    {
        let message = get_universal_msg(self, rawmsg);
        match message {
            Some(message) => {
                let room_id = match &self.room_id {
                    Some(r) => r.clone(),
                    None => {
                        proof {
                            assert(false);
                        }
                        String::new()
                    },
                };
                let recipients = room_users.retain_connected(self.room_nb, users);
                Some(Broadcast { room_id, message, recipients })
            },
            None => None,
        }
    }

    /// `on_message` where it completes; `None`, with nothing changed, on a
    /// message it cannot complete on.
    pub fn try_on_message(
        &mut self,
        rawmsg: &String,
        users: &UserStatusRegistry,
        room_users: &mut RoomUsersRegistry,
    ) -> (b: Option<Option<Broadcast>>)
        ensures
            b is None <==> !relay_defined(*old(self), rawmsg@),
            b is None ==> *final(self) == *old(self) && *final(room_users) == *old(room_users),
            b matches Some(r) ==> final(self).oldp@ == universal(
                old(self).broker@,
                old(self).oldp@,
                old(self).oldv@,
                rawmsg@,
            ).1 && final(self).oldv@ == universal(
                old(self).broker@,
                old(self).oldp@,
                old(self).oldv@,
                rawmsg@,
            ).2 && relayed(*old(self), rawmsg@, old(room_users)@, users@, r, final(room_users)@),
            final(self).room_id == old(self).room_id,
            final(self).room_nb == old(self).room_nb,
            final(self).pair == old(self).pair,
            final(self).broker == old(self).broker,
    {
        if !universal_ready(self, rawmsg) {
            return None;
        }
        if self.room_id.is_none() {
            let mut probe = self.duplicate();
            if get_universal_msg(&mut probe, rawmsg).is_some() {
                return None;
            }
        }
        Some(self.on_message(rawmsg, users, room_users))
    }
}

} // verus!
