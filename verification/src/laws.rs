//! Properties of the relay that span several operations.
use vstd::prelude::*;
use crate::client::{
    candle_field, candle_ms, candle_time, candle_result, is_ack, is_method, kline_field,
    opening_message, relay_defined, relayed, universal, universal_defined, unquotable, Broadcast,
    Client,
};
use crate::datetime::div_toward_zero;
use crate::ticks::{ohlc_line, tick_json, tick_line};
use crate::exchange::ws_id;
use crate::rooms::Delivery;
use crate::server::{counter_after, user_reply};
use crate::ticks::ohlc_json;
use crate::datetime::utc_instant;
use crate::exchange::ws_url;
use crate::json::json_parse;
use crate::rooms::rooms_after_relay;
use crate::server::{closes_user, CloseCode};
use crate::text::lowercase;
use crate::rooms::{delivery, kept_members, numbered, recipients_of};
use crate::server::{disconnected, join_room, nbs_after, room_count_after, room_nb_choice};
use crate::text::{
    all_digits, byte_len, byte_slice, decimal, digit, digits, digits_value, join_with, on_boundary,
    split_char,
};
use crate::ticks::{cuttable_timestamp, seconds_text};
use vstd::utf8::{encode_utf8, is_ascii_chars};

verus! {

/// Numbering a room keeps room numbers between 1 and the count of numbered
/// rooms, and keeps them distinct.
pub proof fn law_numbering_preserved(
    nbs: Map<Seq<char>, u32>,
    room_count: u32,
    room_id: Seq<char>,
    key: Seq<char>,
)
    requires
        numbered(nbs, room_count),
        !nbs.contains_key(room_id) ==> room_count < u32::MAX,
    ensures
        numbered(
            nbs_after(nbs, room_count, room_id, key),
            room_count_after(nbs, room_count, room_id),
        ),
{
    if !nbs.contains_key(room_id) {
        let m = nbs.insert(key, (room_count + 1) as u32);
        assert forall|k1: Seq<char>, k2: Seq<char>|
            #[trigger] m.contains_key(k1) && #[trigger] m.contains_key(k2) && k1 != k2 implies m[k1]
            != m[k2] by {
            if k1 != key && k2 != key {
                assert(nbs.contains_key(k1) && nbs.contains_key(k2));
            } else if k1 == key {
                assert(nbs.contains_key(k2));
            } else {
                assert(nbs.contains_key(k1));
            }
        }
    }
}

/// A room keeps its number: numbering it a second time gives the number it
/// got the first time and changes nothing.
pub proof fn law_room_number_stable(nbs: Map<Seq<char>, u32>, room_count: u32, room_id: Seq<char>)
    requires
        !nbs.contains_key(room_id) ==> room_count < u32::MAX,
    ensures
        ({
            let nbs1 = nbs_after(nbs, room_count, room_id, room_id);
            let count1 = room_count_after(nbs, room_count, room_id);
            &&& room_nb_choice(nbs1, count1, room_id) == room_nb_choice(nbs, room_count, room_id)
            &&& nbs_after(nbs1, count1, room_id, room_id) == nbs1
            &&& room_count_after(nbs1, count1, room_id) == count1
        }),
{
}

/// Two different rooms numbered one after the other get different numbers.
pub proof fn law_distinct_rooms_distinct_numbers(
    nbs: Map<Seq<char>, u32>,
    room_count: u32,
    a: Seq<char>,
    b: Seq<char>,
)
    requires
        numbered(nbs, room_count),
        a != b,
        room_count + 2 <= u32::MAX,
    ensures
        ({
            let nbs1 = nbs_after(nbs, room_count, a, a);
            let count1 = room_count_after(nbs, room_count, a);
            room_nb_choice(nbs, room_count, a) != room_nb_choice(nbs1, count1, b)
        }),
{
    let nbs1 = nbs_after(nbs, room_count, a, a);
    let count1 = room_count_after(nbs, room_count, a);
    law_numbering_preserved(nbs, room_count, a, a);
    assert(nbs1.contains_key(a));
    if nbs1.contains_key(b) {
        assert(nbs1.contains_key(a) && nbs1.contains_key(b) && a != b);
    }
}

/// The first user to join a room creates it, and no later join creates it
/// again; the members are listed in the order they joined.
pub proof fn law_room_created_once(
    rooms: Map<Seq<char>, u32>,
    members: Map<u32, Seq<u32>>,
    room_nb: u32,
    first: u32,
    second: u32,
)
    ensures
        ({
            let (created1, after1) = join_room(Some(members), room_nb, first);
            let (created2, after2) = join_room(after1, room_nb, second);
            &&& created1 == !members.contains_key(room_nb)
            &&& !created2
            &&& after2 matches Some(m2) && m2[room_nb] == (if members.contains_key(room_nb) {
                members[room_nb]
            } else {
                Seq::<u32>::empty()
            }).push(first).push(second)
        }),
{
    if !members.contains_key(room_nb) {
        assert(seq![first] =~= Seq::<u32>::empty().push(first));
    }
}

/// A relay reaches exactly the listed members that are connected.
pub proof fn law_relay_reaches_connected(list: Seq<u32>, statuses: Map<u32, bool>, x: u32)
    ensures
        recipients_of(list, statuses).contains(x) <==> (list.contains(x) && delivery(statuses, x) is Send),
    decreases list.len(),
{
    if list.len() > 0 {
        let init = list.drop_last();
        law_relay_reaches_connected(init, statuses, x);
        assert(list =~= init.push(list.last()));
        lemma_push_contains(init, list.last(), x);
        let r = recipients_of(init, statuses);
        if delivery(statuses, list.last()) is Send {
            lemma_push_contains(r, list.last(), x);
        }
    }
}

/// After a relay, a room holds exactly the listed members not known to have
/// left.
pub proof fn law_relay_keeps_members(list: Seq<u32>, statuses: Map<u32, bool>, x: u32)
    ensures
        kept_members(list, statuses).contains(x) <==> (list.contains(x) && !(delivery(
            statuses,
            x,
        ) is Drop)),
    decreases list.len(),
{
    if list.len() > 0 {
        let init = list.drop_last();
        law_relay_keeps_members(init, statuses, x);
        assert(list =~= init.push(list.last()));
        lemma_push_contains(init, list.last(), x);
        let r = kept_members(init, statuses);
        if !(delivery(statuses, list.last()) is Drop) {
            lemma_push_contains(r, list.last(), x);
        }
    }
}

/// A user who connected and then left is neither sent a relayed candle nor
/// kept in the room.
pub proof fn law_departed_user_not_reached(list: Seq<u32>, statuses: Map<u32, bool>, id: u32)
    ensures
        ({
            let after = disconnected(statuses.insert(id, true), id);
            &&& delivery(after, id) is Drop
            &&& !recipients_of(list, after).contains(id)
            &&& !kept_members(list, after).contains(id)
        }),
{
    let after = disconnected(statuses.insert(id, true), id);
    law_relay_reaches_connected(list, after, id);
    law_relay_keeps_members(list, after, id);
}

/// A connected user listed in a room receives every relayed candle.
pub proof fn law_connected_user_reached(list: Seq<u32>, statuses: Map<u32, bool>, id: u32)
    requires
        list.contains(id),
    ensures
        recipients_of(list, statuses.insert(id, true)).contains(id),
        kept_members(list, statuses.insert(id, true)).contains(id),
{
    law_relay_reaches_connected(list, statuses.insert(id, true), id);
    law_relay_keeps_members(list, statuses.insert(id, true), id);
}

/// A candle update repeated with the same close price and volume is not
/// relayed a second time and changes nothing.
pub proof fn law_repeated_candle_not_relayed(
    oldp: Seq<char>,
    oldv: Seq<char>,
    ts: Seq<char>,
    o: Seq<char>,
    h: Seq<char>,
    l: Seq<char>,
    c: Seq<char>,
    v: Seq<char>,
    ts2: Seq<char>,
    o2: Seq<char>,
    h2: Seq<char>,
    l2: Seq<char>,
)
    ensures
        ({
            let (_m1, p1, v1) = candle_result(oldp, oldv, ts, o, h, l, c, v);
            candle_result(p1, v1, ts2, o2, h2, l2, c, v) == (None::<Seq<char>>, c, v)
        }),
{
}

/// The same HitBTC candle update received twice is relayed at most once:
/// the second time nothing is relayed and the last candle seen stays.
pub proof fn law_duplicate_update_dropped(oldp: Seq<char>, oldv: Seq<char>, raw: Seq<char>)
    ensures
        ({
            let (_m1, p1, v1) = universal("hitbtc"@, oldp, oldv, raw);
            let (m2, p2, v2) = universal("hitbtc"@, p1, v1, raw);
            &&& m2 is None
            &&& p2 == p1
            &&& v2 == v1
        }),
{
    assert("hitbtc"@ != "binance"@) by {
        reveal_strlit("hitbtc");
        reveal_strlit("binance");
        assert("hitbtc"@[0] != "binance"@[0]);
    }
}

/// Every Binance kline is relayed, and its close price and volume become the
/// last candle seen.
pub proof fn law_kline_always_relayed(oldp: Seq<char>, oldv: Seq<char>, raw: Seq<char>)
    ensures
        ({
            let (m, p, v) = universal("binance"@, oldp, oldv, raw);
            &&& m is Some
            &&& p == kline_field(raw, "c"@)
            &&& v == kline_field(raw, "v"@)
        }),
{
}


/// A room number that was chosen is the one recorded for the room.
pub proof fn law_room_number_recorded(nbs: Map<Seq<char>, u32>, room_count: u32, room_id: Seq<char>)
    ensures
        nbs_after(nbs, room_count, room_id, room_id).contains_key(room_id),
        nbs_after(nbs, room_count, room_id, room_id)[room_id] == room_nb_choice(
            nbs,
            room_count,
            room_id,
        ),
{
}

/// A HitBTC candle time of `secs` seconds (other than the epoch itself),
/// rendered in milliseconds, can be cut, and cutting it gives the seconds.
pub proof fn law_relayed_time_in_seconds(secs: int)
    requires
        secs != 0,
    ensures
        cuttable_timestamp(decimal(secs * 1000)),
        seconds_text(decimal(secs * 1000)) == decimal(secs),
{
    let n: nat = if secs < 0 { (-secs) as nat } else { secs as nat };
    assert(n >= 1);
    lemma_digits_times_1000(n);
    let t = decimal(secs);
    let zeros = seq!['0', '0', '0'];
    assert(digit(0) == '0');
    if secs < 0 {
        assert((-(secs * 1000)) as nat == n * 1000) by (nonlinear_arith)
            requires
                secs < 0,
                n == -secs,
        ;
        assert(decimal(secs * 1000) =~= t + zeros);
    } else {
        assert((secs * 1000) as nat == n * 1000) by (nonlinear_arith)
            requires
                secs > 0,
                n == secs,
        ;
        assert(decimal(secs * 1000) =~= t + zeros);
    }
    lemma_digits_ascii(n);
    assert(is_ascii_chars(t));
    let full = t + zeros;
    assert(is_ascii_chars(full)) by {
        assert forall|i: int| 0 <= i < full.len() implies '\0' <= #[trigger] full[i] <= '\u{7f}' by {
            if i < t.len() {
                assert(full[i] == t[i]);
            } else {
                assert(full[i] == zeros[i - t.len()]);
            }
        }
    }
    law_cut_to_seconds(full);
    assert(full.subrange(0, full.len() - 3) =~= t);
}

proof fn lemma_digit_ascii(d: nat)
    requires
        d < 10,
    ensures
        '\0' <= digit(d) <= '\u{7f}',
        digit(d) as u32 == d + 48,
{
}

proof fn lemma_digits_ascii(n: nat)
    ensures
        is_ascii_chars(digits(n)),
        is_ascii_chars(seq!['-'] + digits(n)),
    decreases n,
{
    if n < 10 {
        lemma_digit_ascii(n);
    } else {
        lemma_digits_ascii(n / 10);
        lemma_digit_ascii(n % 10);
    }
    let d = digits(n);
    assert forall|i: int| 0 <= i < (seq!['-'] + d).len() implies '\0' <= #[trigger] (seq!['-']
        + d)[i] <= '\u{7f}' by {
        if i > 0 {
            assert((seq!['-'] + d)[i] == d[i - 1]);
        }
    }
}

proof fn lemma_digits_times_1000(n: nat)
    requires
        n >= 1,
    ensures
        digits(n * 1000) == digits(n) + seq!['0', '0', '0'],
{
    let a = n * 1000;
    let b = n * 100;
    let c = n * 10;
    assert(a / 10 == b && a % 10 == 0 && b / 10 == c && b % 10 == 0 && c / 10 == n && c % 10 == 0
        && a >= 10 && b >= 10 && c >= 10) by (nonlinear_arith)
        requires
            n >= 1,
            a == n * 1000,
            b == n * 100,
            c == n * 10,
    ;
    assert(digits(c) == digits(n).push(digit(0)));
    assert(digits(b) == digits(c).push(digit(0)));
    assert(digits(a) == digits(b).push(digit(0)));
    assert(digit(0) == '0');
    assert(digits(a) =~= digits(n) + seq!['0', '0', '0']);
}

/// A message that could be read once can be read again: after a readable
/// message is handled, handling the same message once more (for instance a
/// repeated, unchanged HitBTC candle) completes as well.
pub proof fn law_repeat_stays_readable(broker: Seq<char>, oldp: Seq<char>, oldv: Seq<char>, raw: Seq<char>)
    requires
        universal_defined(broker, oldp, oldv, raw),
    ensures
        ({
            let (_m, p1, v1) = universal(broker, oldp, oldv, raw);
            universal_defined(broker, p1, v1, raw)
        }),
{
}

/// What makes a HitBTC candle update readable does not depend on the last
/// candle seen, except that a changed candle must also have a time that can
/// be cut to seconds: an update whose close price and volume equal the last
/// ones seen is readable as soon as the document parses and its timestamp can
/// be unquoted and read.
pub proof fn law_unchanged_update_readable(oldp: Seq<char>, oldv: Seq<char>, raw: Seq<char>)
    requires
        json_parse(raw) is Some,
        !is_ack(raw),
        !is_method(raw, "snapshotCandles"@),
        is_method(raw, "updateCandles"@),
        unquotable(candle_field(raw, "timestamp"@)),
        utc_instant(candle_time(raw)) is Some,
        oldp == candle_field(raw, "close"@),
        oldv == candle_field(raw, "volume"@),
    ensures
        universal_defined("hitbtc"@, oldp, oldv, raw),
        universal("hitbtc"@, oldp, oldv, raw) == (None::<Seq<char>>, oldp, oldv),
{
    lemma_hitbtc_is_not_binance();
}

proof fn lemma_hitbtc_is_not_binance()
    ensures
        "hitbtc"@ != "binance"@,
{
    reveal_strlit("hitbtc");
    reveal_strlit("binance");
    assert("hitbtc"@[0] != "binance"@[0]);
}

/// A relay never adds or removes a room: the registry keeps the same room
/// numbers (an emptied room keeps an empty member list), other rooms keep
/// their members, and the relayed room keeps exactly its members that are
/// not known to have left. An unavailable registry stays unavailable.
pub proof fn law_relay_keeps_rooms(
    rooms: Option<Map<u32, Seq<u32>>>,
    room_nb: u32,
    statuses: Map<u32, bool>,
)
    ensures
        rooms is None ==> rooms_after_relay(rooms, room_nb, statuses) is None,
        rooms matches Some(m) ==> ({
            let after = rooms_after_relay(rooms, room_nb, statuses);
            &&& after is Some
            &&& after->0.dom() == m.dom()
            &&& forall|k: u32| #[trigger] m.contains_key(k) && k != room_nb ==> after->0[k] == m[k]
            &&& m.contains_key(room_nb) ==> forall|x: u32|
                #[trigger] after->0[room_nb].contains(x) <==> (m[room_nb].contains(x) && !(delivery(
                    statuses,
                    x,
                ) is Drop))
        }),
{
    if let Some(m) = rooms {
        let after = rooms_after_relay(rooms, room_nb, statuses);
        if m.contains_key(room_nb) {
            assert(after->0.dom() =~= m.dom());
            assert forall|x: u32|
                #[trigger] after->0[room_nb].contains(x) <==> (m[room_nb].contains(x) && !(delivery(
                    statuses,
                    x,
                ) is Drop)) by {
                law_relay_keeps_members(m[room_nb], statuses, x);
            }
        }
    }
}

/// A browser connection closes and marks its user gone on exactly two close
/// codes, `Away` and `Status`; every other code (a normal close, an abnormal
/// drop, a protocol error, ...) leaves the user as it was.
pub proof fn law_close_codes(code: CloseCode)
    ensures
        closes_user(code) <==> (code == CloseCode::Away || code == CloseCode::Status),
        closes_user(CloseCode::Away),
        closes_user(CloseCode::Status),
        !closes_user(CloseCode::Normal),
        !closes_user(CloseCode::Abnormal),
        !closes_user(CloseCode::Protocol),
        !closes_user(CloseCode::Error),
{
}

/// The Binance stream address is the stream root, the lowercased pair,
/// `@kline_` and the whole interval; so it ends with the interval, and two
/// intervals give the same address only if they are the same.
pub proof fn law_binance_url(pair: Seq<char>, interval: Seq<char>, other: Seq<char>)
    ensures
        ws_url("binance"@, pair, interval) == "wss://stream.binance.com:9443/ws/"@ + lowercase(pair)
            + "@kline_"@ + interval,
        ({
            let url = ws_url("binance"@, pair, interval);
            url.subrange(url.len() - interval.len(), url.len() as int) == interval
        }),
        ws_url("binance"@, pair, interval) == ws_url("binance"@, pair, other) ==> interval == other,
{
    let prefix = "wss://stream.binance.com:9443/ws/"@ + lowercase(pair) + "@kline_"@;
    let url = prefix + interval;
    assert(url.subrange(url.len() - interval.len(), url.len() as int) =~= interval);
    if ws_url("binance"@, pair, interval) == ws_url("binance"@, pair, other) {
        assert((prefix + other).len() == url.len());
        assert(interval =~= (prefix + other).subrange(prefix.len() as int, url.len() as int));
    }
}

/// The HitBTC stream address is fixed; any broker other than Binance and
/// HitBTC gets a blank address.
pub proof fn law_other_urls(broker: Seq<char>, pair: Seq<char>, interval: Seq<char>)
    ensures
        ws_url("hitbtc"@, pair, interval) == "wss://api.hitbtc.com/api/2/ws"@,
        broker != "binance"@ && broker != "hitbtc"@ ==> ws_url(broker, pair, interval) == " "@,
{
    lemma_hitbtc_is_not_binance();
}

proof fn lemma_push_contains(s: Seq<u32>, e: u32, x: u32)
    ensures
        s.push(e).contains(x) <==> (s.contains(x) || e == x),
{
    if s.push(e).contains(x) && e != x {
        let i = choose|i: int| 0 <= i < s.len() + 1 && s.push(e)[i] == x;
        assert(s[i] == x);
    }
    if s.contains(x) {
        let i = choose|i: int| 0 <= i < s.len() && s[i] == x;
        assert(s.push(e)[i] == x);
    }
    if e == x {
        assert(s.push(e)[s.len() as int] == x);
    }
}


/// A relay keeps, in the order they joined, exactly the members not known to
/// have left, and sends the candle, in the same order, to exactly the
/// connected ones.
pub proof fn law_relay_order(list: Seq<u32>, statuses: Map<u32, bool>)
    ensures
        kept_members(list, statuses) == list.filter(|x: u32| !(delivery(statuses, x) is Drop)),
        recipients_of(list, statuses) == list.filter(|x: u32| delivery(statuses, x) is Send),
    decreases list.len(),
{
    reveal(Seq::filter);
    let stays = |x: u32| !(delivery(statuses, x) is Drop);
    let sent = |x: u32| delivery(statuses, x) is Send;
    if list.len() == 0 {
        assert(list.filter(stays) =~= Seq::<u32>::empty());
        assert(list.filter(sent) =~= Seq::<u32>::empty());
    } else {
        law_relay_order(list.drop_last(), statuses);
        assert(list.filter(stays) == (if stays(list.last()) {
            list.drop_last().filter(stays).push(list.last())
        } else {
            list.drop_last().filter(stays)
        }));
        assert(list.filter(sent) == (if sent(list.last()) {
            list.drop_last().filter(sent).push(list.last())
        } else {
            list.drop_last().filter(sent)
        }));
    }
}

/// A member marked connected is sent relayed candles, one marked gone is
/// dropped from the room, and one with no recorded status stays in the room
/// without being sent anything.
pub proof fn law_delivery(statuses: Map<u32, bool>, id: u32)
    ensures
        delivery(statuses.insert(id, true), id) == Delivery::Send,
        delivery(statuses.insert(id, false), id) == Delivery::Drop,
        !statuses.contains_key(id) ==> delivery(statuses, id) == Delivery::Keep,
{
}

/// Marking a user gone touches that user alone: a known user becomes not
/// connected, an unknown user stays unknown, and every other status stays.
pub proof fn law_disconnect(statuses: Map<u32, bool>, id: u32, other: u32)
    ensures
        statuses.contains_key(id) ==> disconnected(statuses, id) == statuses.insert(id, false),
        !statuses.contains_key(id) ==> disconnected(statuses, id) == statuses,
        other != id ==> disconnected(statuses, id).contains_key(other) == statuses.contains_key(
            other,
        ),
        other != id && statuses.contains_key(other) ==> disconnected(statuses, id)[other]
            == statuses[other],
{
}

/// Opening a room keeps its counter if it has one and starts it at zero
/// otherwise; the counters of other rooms do not change.
pub proof fn law_room_counter(counter: Map<Seq<char>, u8>, room_id: Seq<char>, other: Seq<char>)
    ensures
        counter.contains_key(room_id) ==> counter_after(counter, room_id) == counter,
        !counter.contains_key(room_id) ==> counter_after(counter, room_id) == counter.insert(
            room_id,
            0,
        ),
        other != room_id ==> counter_after(counter, room_id).contains_key(other)
            == counter.contains_key(other),
        other != room_id && counter.contains_key(other) ==> counter_after(counter, room_id)[other]
            == counter[other],
{
    if counter.contains_key(room_id) {
        assert(counter.insert(room_id, counter[room_id]) =~= counter);
    }
}

/// Joining an unavailable registry records nothing and counts as creating
/// the room.
pub proof fn law_join_unavailable(room_nb: u32, id: u32)
    ensures
        join_room(None, room_nb, id) == (true, None::<Map<u32, Seq<u32>>>),
{
}

/// Every Binance kline is relayed as the candle made of its `t`, `o`, `h`,
/// `l`, `c` and `v` fields, whatever the last candle seen.
pub proof fn law_kline_message(oldp: Seq<char>, oldv: Seq<char>, raw: Seq<char>)
    ensures
        universal("binance"@, oldp, oldv, raw) == (
            Some(
                ohlc_json(
                    kline_field(raw, "t"@),
                    kline_field(raw, "o"@),
                    kline_field(raw, "h"@),
                    kline_field(raw, "l"@),
                    kline_field(raw, "c"@),
                    kline_field(raw, "v"@),
                ),
            ),
            kline_field(raw, "c"@),
            kline_field(raw, "v"@),
        ),
{
}

/// A HitBTC candle update whose close price or volume differs from the last
/// candle seen is relayed as its candle, stamped with its time in
/// milliseconds, and its close price and volume become the last ones seen.
pub proof fn law_changed_update_relayed(oldp: Seq<char>, oldv: Seq<char>, raw: Seq<char>)
    requires
        !is_ack(raw),
        !is_method(raw, "snapshotCandles"@),
        is_method(raw, "updateCandles"@),
        oldp != candle_field(raw, "close"@) || oldv != candle_field(raw, "volume"@),
    ensures
        universal("hitbtc"@, oldp, oldv, raw) == (
            Some(
                ohlc_json(
                    decimal(candle_ms(raw)),
                    candle_field(raw, "open"@),
                    candle_field(raw, "max"@),
                    candle_field(raw, "min"@),
                    candle_field(raw, "close"@),
                    candle_field(raw, "volume"@),
                ),
            ),
            candle_field(raw, "close"@),
            candle_field(raw, "volume"@),
        ),
{
    lemma_hitbtc_is_not_binance();
}

/// HitBTC acknowledgements, candle snapshots and any message that is not a
/// candle update relay nothing and leave the last candle seen as it was;
/// they can be read as soon as they parse. Messages for any other broker
/// are ignored the same way and can always be read.
pub proof fn law_other_messages_ignored(
    broker: Seq<char>,
    oldp: Seq<char>,
    oldv: Seq<char>,
    raw: Seq<char>,
)
    ensures
        is_ack(raw) || is_method(raw, "snapshotCandles"@) || !is_method(raw, "updateCandles"@)
            ==> universal("hitbtc"@, oldp, oldv, raw) == (None::<Seq<char>>, oldp, oldv) && (
            universal_defined("hitbtc"@, oldp, oldv, raw) <==> json_parse(raw) is Some),
        broker != "binance"@ && broker != "hitbtc"@ ==> universal(broker, oldp, oldv, raw) == (
            None::<Seq<char>>,
            oldp,
            oldv,
        ) && universal_defined(broker, oldp, oldv, raw),
{
    lemma_hitbtc_is_not_binance();
}

/// A Binance or HitBTC message that is not a JSON document cannot be read.
pub proof fn law_unparsed_unreadable(oldp: Seq<char>, oldv: Seq<char>, raw: Seq<char>)
    requires
        json_parse(raw) is None,
    ensures
        !universal_defined("binance"@, oldp, oldv, raw),
        !universal_defined("hitbtc"@, oldp, oldv, raw),
{
    lemma_hitbtc_is_not_binance();
}

/// A Binance kline can be read exactly when it parses and its `t` field has
/// at least three bytes, the last three of which start on a character
/// boundary (they are cut off to turn milliseconds into seconds).
pub proof fn law_kline_readable(oldp: Seq<char>, oldv: Seq<char>, raw: Seq<char>)
    ensures
        universal_defined("binance"@, oldp, oldv, raw) <==> json_parse(raw) is Some && byte_len(
            kline_field(raw, "t"@),
        ) >= 3 && on_boundary(kline_field(raw, "t"@), byte_len(kline_field(raw, "t"@)) - 3),
{
}

/// A HitBTC candle update that parses, whose timestamp can be unquoted and
/// reads as an instant other than the epoch itself, can be read whatever
/// the last candle seen.
pub proof fn law_update_readable(oldp: Seq<char>, oldv: Seq<char>, raw: Seq<char>)
    requires
        json_parse(raw) is Some,
        unquotable(candle_field(raw, "timestamp"@)),
        utc_instant(candle_time(raw)) matches Some(t) && t.0 != 0,
    ensures
        universal_defined("hitbtc"@, oldp, oldv, raw),
{
    lemma_hitbtc_is_not_binance();
    let secs = (utc_instant(candle_time(raw))->0).0 as int;
    law_relayed_time_in_seconds(secs);
}

/// When a HitBTC stream opens it is sent a subscription to the one-minute
/// candles of the pair; no other exchange is sent anything.
pub proof fn law_opening_message(broker: Seq<char>, pair: Seq<char>)
    ensures
        opening_message("hitbtc"@, pair) == Some(
            "{ \"method\": \"subscribeCandles\",\"params\": {\"symbol\": \""@ + pair
                + "\",\"period\":\"M1\"},\"id\": 123 }"@,
        ),
        broker != "hitbtc"@ ==> opening_message(broker, pair) is None,
{
}

/// A room is named `broker-pair-interval`.
pub proof fn law_room_id(broker: Seq<char>, pair: Seq<char>, interval: Seq<char>)
    ensures
        ws_id(broker, pair, interval) == broker + "-"@ + pair + "-"@ + interval,
{
}

/// The reply to a browser names the user and the count in decimal.
pub proof fn law_user_reply(id: u32, count: u32)
    ensures
        user_reply(id, count) == "You are user "@ + decimal(id as int) + " on Cell { value: "@
            + decimal(count as int) + " }"@,
{
}

/// A relayed candle is the JSON object of its time in seconds (the
/// millisecond text without its last three bytes, quoted) and its open,
/// high, low, close and volume texts, in that order.
pub proof fn law_candle_json(
    ts: Seq<char>,
    o: Seq<char>,
    h: Seq<char>,
    l: Seq<char>,
    c: Seq<char>,
    v: Seq<char>,
)
    ensures
        ohlc_json(ts, o, h, l, c, v) == "{\"ts\":\""@ + byte_slice(ts, 0, byte_len(ts) - 3)
            + "\",\"o\":"@ + o + ",\"h\":"@ + h + ",\"l\":"@ + l + ",\"c\":"@ + c + ",\"v\":"@ + v
            + "}"@,
{
}


/// Every natural number is written with at least one decimal digit, no
/// leading zero (but for zero itself), and its digits read back as the
/// number; an integer is written as the digits of its magnitude, after a
/// minus sign exactly when it is negative.
pub proof fn law_decimal(n: nat, i: int)
    ensures
        digits(n).len() >= 1,
        all_digits(digits(n)),
        digits_value(digits(n)) == n,
        digits(n)[0] == '0' ==> n == 0,
        i < 0 ==> decimal(i) == seq!['-'] + digits((-i) as nat),
        i >= 0 ==> decimal(i) == digits(i as nat),
    decreases n,
{
    lemma_digit_ascii(n % 10);
    assert(digit(n % 10) as int == n % 10 + 48);
    if n < 10 {
        assert(n % 10 == n);
        assert(seq![digit(n)].drop_last() =~= Seq::<char>::empty());
        assert(digits_value(digits(n)) == digits_value(Seq::<char>::empty()) * 10 + (digit(n) as int
            - 48));
    } else {
        law_decimal(n / 10, i);
        let d = digits(n / 10);
        assert(digits(n).drop_last() =~= d);
        assert(digits(n)[0] == d[0]);
        assert((n / 10) * 10 + n % 10 == n) by (nonlinear_arith);
        assert(digits_value(digits(n)) == digits_value(d) * 10 + (digit(n % 10) as int - 48));
    }
}

/// Splitting a text at a character cuts it at every occurrence of that
/// character and nowhere else: joining the pieces with the character gives
/// the text back, and no piece contains it.
pub proof fn law_split(s: Seq<char>, sep: char)
    ensures
        split_char(s, sep).len() >= 1,
        join_with(split_char(s, sep), sep) == s,
        forall|k: int|
            0 <= k < split_char(s, sep).len() ==> !(#[trigger] split_char(s, sep)[k]).contains(sep),
    decreases s.len(),
{
    if s.len() == 0 {
        assert(!Seq::<char>::empty().contains(sep));
    } else {
        let init = split_char(s.drop_last(), sep);
        law_split(s.drop_last(), sep);
        let c = s.last();
        let p = split_char(s, sep);
        if c == sep {
            assert(p.drop_last() =~= init);
            assert(s =~= s.drop_last() + seq![sep] + Seq::<char>::empty());
            assert forall|k: int| 0 <= k < p.len() implies !(#[trigger] p[k]).contains(sep) by {
                if k < init.len() {
                    assert(p[k] == init[k]);
                } else {
                    assert(p[k] =~= Seq::<char>::empty());
                }
            }
        } else {
            let last = init.last();
            assert(!last.contains(sep)) by {
                assert(init[init.len() - 1] == last);
            }
            lemma_join_extend_last(init, sep, c);
            assert(s =~= s.drop_last().push(c));
            assert forall|k: int| 0 <= k < p.len() implies !(#[trigger] p[k]).contains(sep) by {
                if k < init.len() - 1 {
                    assert(p[k] == init[k]);
                } else {
                    assert(p[k] == last.push(c));
                    if last.push(c).contains(sep) {
                        let j = choose|j: int| 0 <= j < last.push(c).len() && last.push(c)[j] == sep;
                        assert(last[j] == sep);
                    }
                }
            }
        }
    }
}

proof fn lemma_join_extend_last(p: Seq<Seq<char>>, sep: char, c: char)
    requires
        p.len() >= 1,
    ensures
        join_with(p.update(p.len() - 1, p.last().push(c)), sep) == join_with(p, sep).push(c),
{
    let q = p.update(p.len() - 1, p.last().push(c));
    if p.len() == 1 {
        assert(q[0] == p[0].push(c));
    } else {
        assert(q.drop_last() =~= p.drop_last());
        assert(q.last() == p.last().push(c));
        assert(join_with(q, sep) =~= join_with(p, sep).push(c));
    }
}


/// A message whose candle is relayed can only be handled by a connection
/// that has a room; one that relays nothing can be handled by any
/// connection, as soon as it can be read.
pub proof fn law_relay_needs_room(client: Client, raw: Seq<char>)
    ensures
        client.room_id is Some ==> (relay_defined(client, raw) <==> universal_defined(
            client.broker@,
            client.oldp@,
            client.oldv@,
            raw,
        )),
        universal(client.broker@, client.oldp@, client.oldv@, raw).0 is None ==> (relay_defined(
            client,
            raw,
        ) <==> universal_defined(client.broker@, client.oldp@, client.oldv@, raw)),
        client.room_id is None && client.broker@ == "binance"@ ==> !relay_defined(client, raw),
{
}

/// Handling a message sends its candle, if it has one, under the client's
/// room to the connected members of that room in the order they joined, and
/// leaves in the room, in their order, the members not known to have left;
/// other rooms do not change. A message with no candle sends nothing and
/// changes no room.
pub proof fn law_relayed(
    client: Client,
    raw: Seq<char>,
    rooms: Option<Map<u32, Seq<u32>>>,
    statuses: Map<u32, bool>,
    b: Option<Broadcast>,
    after: Option<Map<u32, Seq<u32>>>,
)
    requires
        relayed(client, raw, rooms, statuses, b, after),
    ensures
        universal(client.broker@, client.oldp@, client.oldv@, raw).0 is None ==> b is None && after
            == rooms,
        universal(client.broker@, client.oldp@, client.oldv@, raw).0 matches Some(msg) ==> (b matches Some(
            bc,
        ) && bc.message@ == msg && Some(bc.room_id) == client.room_id),
        universal(client.broker@, client.oldp@, client.oldv@, raw).0 is Some && (rooms matches Some(m)
            && m.contains_key(client.room_nb)) ==> b->0.recipients@ == rooms->0[client.room_nb].filter(
            |x: u32| delivery(statuses, x) is Send,
        ) && after == Some(
            rooms->0.insert(
                client.room_nb,
                rooms->0[client.room_nb].filter(|x: u32| !(delivery(statuses, x) is Drop)),
            ),
        ),
        universal(client.broker@, client.oldp@, client.oldv@, raw).0 is Some && !(rooms matches Some(m)
            && m.contains_key(client.room_nb)) ==> b->0.recipients@.len() == 0 && after == rooms,
{
    if let Some(m) = rooms {
        if m.contains_key(client.room_nb) {
            law_relay_order(m[client.room_nb], statuses);
        }
    }
}

/// Rust's integer division by a positive number rounds toward zero: the
/// remainder is smaller than the divisor in size and has the sign of the
/// dividend.
pub proof fn law_div_toward_zero(a: int, b: int)
    requires
        b > 0,
    ensures
        ({
            let r = a - div_toward_zero(a, b) * b;
            &&& -b < r < b
            &&& a >= 0 ==> r >= 0
            &&& a < 0 ==> r <= 0
        }),
{
    if a >= 0 {
        assert(0 <= a - (a / b) * b < b) by (nonlinear_arith)
            requires
                a >= 0,
                b > 0,
        ;
    } else {
        let n = -a;
        assert(0 <= n - (n / b) * b < b) by (nonlinear_arith)
            requires
                n > 0,
                b > 0,
        ;
        assert(a - (-(n / b)) * b == -(n - (n / b) * b)) by (nonlinear_arith)
            requires
                n == -a,
        ;
    }
}

/// A tick is written as `ts,p,v` on a line of its own, or as the JSON object
/// of its three texts; a candle as `ts,o,h,l,c,v` on a line of its own.
pub proof fn law_tick_texts(
    ts: Seq<char>,
    p: Seq<char>,
    v: Seq<char>,
    o: Seq<char>,
    h: Seq<char>,
    l: Seq<char>,
    c: Seq<char>,
)
    ensures
        tick_line(ts, p, v) == ts + ","@ + p + ","@ + v + "\n"@,
        tick_json(ts, p, v) == "{\"ts\" :"@ + ts + ",\"p\" :"@ + p + ",\"v\":"@ + v + "}"@,
        ohlc_line(ts, o, h, l, c, v) == ts + ","@ + o + ","@ + h + ","@ + l + ","@ + c + ","@ + v
            + "\n"@,
{
}


/// On ASCII text, bytes and characters coincide: every offset is a
/// character boundary and a byte range is the same range of characters.
proof fn lemma_ascii_slice(s: Seq<char>, a: int, b: int)
    requires
        is_ascii_chars(s),
        0 <= a <= b <= s.len(),
    ensures
        byte_len(s) == s.len(),
        on_boundary(s, a),
        on_boundary(s, b),
        byte_slice(s, a, b) == s.subrange(a, b),
{
    let t = s.subrange(a, b);
    assert(is_ascii_chars(t)) by {
        assert forall|i: int| 0 <= i < t.len() implies '\0' <= #[trigger] t[i] <= '\u{7f}' by {
            assert(t[i] == s[a + i]);
        }
    }
    vstd::utf8::is_ascii_chars_encode_utf8(s);
    vstd::utf8::is_ascii_chars_encode_utf8(t);
    vstd::utf8::encode_utf8_valid_utf8(s);
    vstd::utf8::encode_utf8_decode_utf8(t);
    let bytes = encode_utf8(s);
    assert(bytes.subrange(a, b) =~= encode_utf8(t)) by {
        assert forall|i: int| 0 <= i < b - a implies #[trigger] bytes.subrange(a, b)[i]
            == encode_utf8(t)[i] by {
            assert(s[a + i] == t[i]);
        }
    }
    vstd::utf8::is_char_boundary_start_end_of_seq(bytes);
    if a < bytes.len() {
        vstd::utf8::is_char_boundary_iff_is_leading_byte(bytes, a);
        assert(s[a] as u8 == bytes[a]);
        assert(vstd::utf8::is_leading_byte_width_1(bytes[a]));
    }
    if b < bytes.len() {
        vstd::utf8::is_char_boundary_iff_is_leading_byte(bytes, b);
        assert(s[b] as u8 == bytes[b]);
        assert(vstd::utf8::is_leading_byte_width_1(bytes[b]));
    }
}

/// A timestamp received as ASCII text between two double quotes can be
/// unquoted, and unquoting it gives back the text between the quotes.
pub proof fn law_unquote(raw: Seq<char>, inner: Seq<char>)
    requires
        is_ascii_chars(inner),
    ensures
        unquotable(seq!['"'] + inner + seq!['"']),
        byte_slice(
            seq!['"'] + inner + seq!['"'],
            1,
            byte_len(seq!['"'] + inner + seq!['"']) - 1,
        ) == inner,
        candle_field(raw, "timestamp"@) == seq!['"'] + inner + seq!['"'] ==> candle_time(raw)
            == inner,
{
    let t = seq!['"'] + inner + seq!['"'];
    assert(is_ascii_chars(t)) by {
        assert forall|i: int| 0 <= i < t.len() implies '\0' <= #[trigger] t[i] <= '\u{7f}' by {
            if 0 < i < t.len() - 1 {
                assert(t[i] == inner[i - 1]);
            }
        }
    }
    lemma_ascii_slice(t, 1, t.len() - 1);
    lemma_ascii_slice(t, 0, t.len() as int);
    assert(t.subrange(1, t.len() - 1) =~= inner);
}

/// An ASCII millisecond count of at least three characters can be cut to
/// seconds, and cutting it drops its last three characters.
pub proof fn law_cut_to_seconds(ts: Seq<char>)
    requires
        is_ascii_chars(ts),
        ts.len() >= 3,
    ensures
        cuttable_timestamp(ts),
        seconds_text(ts) == ts.subrange(0, ts.len() - 3),
{
    lemma_ascii_slice(ts, 0, ts.len() - 3);
    lemma_ascii_slice(ts, ts.len() - 3, ts.len() as int);
}


/// Once a room exists, relays never make it disappear: a user who opens the
/// same stream after any relay joins the existing room, and no second
/// exchange feed is started for it.
pub proof fn law_room_outlives_relay(
    members: Map<u32, Seq<u32>>,
    room_nb: u32,
    statuses: Map<u32, bool>,
    id: u32,
)
    requires
        members.contains_key(room_nb),
    ensures
        !join_room(rooms_after_relay(Some(members), room_nb, statuses), room_nb, id).0,
{
    law_relay_keeps_rooms(Some(members), room_nb, statuses);
    assert(rooms_after_relay(Some(members), room_nb, statuses)->0.dom().contains(room_nb));
}

} // verus!
