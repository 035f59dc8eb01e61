use vstd::prelude::*;
use vstd::string::*;
use crate::text::{lowercase, same_text, str_to_lowercase};

verus! {

/// The exchange stream that feeds a room, by broker name.
pub open spec fn ws_url(broker: Seq<char>, pair: Seq<char>, interval: Seq<char>) -> Seq<char> {
    if broker == "binance"@ {
        "wss://stream.binance.com:9443/ws/"@ + lowercase(pair) + "@kline_"@ + interval
    } else if broker == "hitbtc"@ {
        "wss://api.hitbtc.com/api/2/ws"@
    } else {
        " "@
    }
}

/// The room identifier `broker-pair-interval`.
pub open spec fn ws_id(broker: Seq<char>, pair: Seq<char>, interval: Seq<char>) -> Seq<char> {
    broker + "-"@ + pair + "-"@ + interval
}

/// The websocket address of the exchange stream for a pair and interval.
pub fn get_ws_url(broker: &str, pair: &str, interval: &str) -> (url: String)
    ensures
        url@ == ws_url(broker@, pair@, interval@),
{
    if same_text(broker, "binance") {
        let mut s = "wss://stream.binance.com:9443/ws/".to_string();
        let pairl = str_to_lowercase(pair);
        s.append(pairl.as_str());
        s.append("@kline_");
        s.append(interval);
        s
    } else if same_text(broker, "hitbtc") {
        "wss://api.hitbtc.com/api/2/ws".to_string()
    } else {
        " ".to_string()
    }
}

/// The identifier of the room that relays one broker's pair and interval.
pub fn get_ws_id(broker: &str, pair: &str, interval: &str) -> (id: String)
    ensures
        id@ == ws_id(broker@, pair@, interval@),
{
    let mut s = broker.to_string();
    s.append("-");
    s.append(pair);
    s.append("-");
    s.append(interval);
    s
}

} // verus!
