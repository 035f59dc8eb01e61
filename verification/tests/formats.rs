use coinamics_ws::{get_ws_id, get_ws_url, StringGenericOHLC, StringGenericTick};

fn tick(ts: &str, p: &str, v: &str) -> StringGenericTick {
    StringGenericTick { ts: ts.to_string(), p: p.to_string(), v: v.to_string() }
}

fn candle(ts: &str, o: &str, h: &str, l: &str, c: &str, v: &str) -> StringGenericOHLC {
    StringGenericOHLC {
        ts: ts.to_string(),
        o: o.to_string(),
        h: h.to_string(),
        c: c.to_string(),
        l: l.to_string(),
        v: v.to_string(),
    }
}

#[test]
fn string_tick_to_string_is_csv_line() {
    assert_eq!(tick("1508430840000", "0.05", "12").to_string(), "1508430840000,0.05,12\n");
}

#[test]
fn string_tick_to_json_splices_values() {
    assert_eq!(tick("1", "\"2\"", "3").to_json(), "{\"ts\" :1,\"p\" :\"2\",\"v\":3}");
}

#[test]
fn string_tick_empty_fields() {
    assert_eq!(tick("", "", "").to_string(), ",,\n");
    assert_eq!(tick("", "", "").to_json(), "{\"ts\" :,\"p\" :,\"v\":}");
}

#[test]
fn ohlc_to_string_is_csv_line() {
    assert_eq!(candle("1", "2", "3", "4", "5", "6").to_string(), "1,2,3,4,5,6\n");
}

#[test]
fn ohlc_to_json_cuts_milliseconds() {
    let c = candle("1508430840000", "\"0.054801\"", "\"0.054894\"", "\"0.054601\"", "\"0.054625\"", "\"380.750\"");
    assert_eq!(
        c.to_json(),
        "{\"ts\":\"1508430840\",\"o\":\"0.054801\",\"h\":\"0.054894\",\"l\":\"0.054601\",\"c\":\"0.054625\",\"v\":\"380.750\"}"
    );
}

#[test]
fn ohlc_to_json_three_byte_timestamp_becomes_empty() {
    let c = candle("123", "1", "2", "3", "4", "5");
    assert_eq!(c.to_json(), "{\"ts\":\"\",\"o\":1,\"h\":2,\"l\":3,\"c\":4,\"v\":5}");
}

#[test]
fn ohlc_to_json_cuts_bytes_not_characters() {
    // "é" takes two bytes: cutting three bytes removes "é" and "1".
    let c = candle("xé1", "o", "h", "l", "c", "v");
    assert_eq!(c.to_json(), "{\"ts\":\"x\",\"o\":o,\"h\":h,\"l\":l,\"c\":c,\"v\":v}");
}

#[test]
fn ws_id_joins_with_dashes() {
    assert_eq!(get_ws_id("binance", "BTCUSDT", "1m"), "binance-BTCUSDT-1m");
    assert_eq!(get_ws_id("", "", ""), "--");
}

#[test]
fn ws_url_binance_lowercases_pair() {
    assert_eq!(
        get_ws_url("binance", "BTCUSDT", "1m"),
        "wss://stream.binance.com:9443/ws/btcusdt@kline_1m"
    );
}

#[test]
fn ws_url_binance_keeps_interval_case() {
    assert_eq!(
        get_ws_url("binance", "EthBtc", "1M"),
        "wss://stream.binance.com:9443/ws/ethbtc@kline_1M"
    );
}

#[test]
fn ws_url_hitbtc_is_fixed() {
    assert_eq!(get_ws_url("hitbtc", "ETHBTC", "M30"), "wss://api.hitbtc.com/api/2/ws");
}

#[test]
fn ws_url_unknown_broker_is_blank() {
    assert_eq!(get_ws_url("kraken", "XBTUSD", "1"), " ");
    assert_eq!(get_ws_url("Binance", "XBTUSD", "1"), " ");
}
