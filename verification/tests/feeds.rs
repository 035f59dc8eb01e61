use coinamics_ws::{get_universal_msg, try_universal_msg, Client};

const KLINE: &str = "{\"e\":\"kline\",\"E\":123456789,\"s\":\"BNBBTC\",\"k\":{\"t\":123400000,\"T\":123460000,\"s\":\"BNBBTC\",\"i\":\"1m\",\"f\":100,\"L\":200,\"o\":\"0.0010\",\"c\":\"0.0020\",\"h\":\"0.0025\",\"l\":\"0.0015\",\"v\":\"1000\",\"n\":100,\"x\":false,\"q\":\"1.0000\",\"V\":\"500\",\"Q\":\"0.500\",\"B\":\"123456\"}}";

const UPDATE: &str = "{\"jsonrpc\":\"2.0\",\"method\":\"updateCandles\",\"params\":{\"data\":[{\"timestamp\":\"2017-10-19T16:34:00.000Z\",\"open\":\"0.054801\",\"close\":\"0.054625\",\"min\":\"0.054601\",\"max\":\"0.054894\",\"volume\":\"380.750\",\"volumeQuote\":\"20.844237223\"}],\"symbol\":\"ETHBTC\",\"period\":\"M30\"}}";

const UPDATE_JSON: &str = "{\"ts\":\"1508430840\",\"o\":\"0.054801\",\"h\":\"0.054894\",\"l\":\"0.054601\",\"c\":\"0.054625\",\"v\":\"380.750\"}";

fn client(broker: &str, pair: &str) -> Client {
    Client::new(broker.to_string(), pair.to_string(), Some(format!("{}-{}-1m", broker, pair)), 1)
}

#[test]
fn hitbtc_on_open_subscribes_to_candles() {
    let c = client("hitbtc", "ETHBTC");
    assert_eq!(
        c.on_open(),
        Some("{ \"method\": \"subscribeCandles\",\"params\": {\"symbol\": \"ETHBTC\",\"period\":\"M1\"},\"id\": 123 }".to_string())
    );
}

#[test]
fn binance_on_open_sends_nothing() {
    assert_eq!(client("binance", "BTCUSDT").on_open(), None);
}

#[test]
fn binance_kline_is_relayed() {
    let mut c = client("binance", "BNBBTC");
    let m = get_universal_msg(&mut c, &KLINE.to_string());
    assert_eq!(
        m,
        Some("{\"ts\":\"123400\",\"o\":\"0.0010\",\"h\":\"0.0025\",\"l\":\"0.0015\",\"c\":\"0.0020\",\"v\":\"1000\"}".to_string())
    );
    assert_eq!(c.oldp, "\"0.0020\"");
    assert_eq!(c.oldv, "\"1000\"");
    assert_eq!(c.pair, "BNBBTC");
    assert_eq!(c.room_nb, 1);
}

#[test]
fn binance_repeated_kline_is_relayed_again() {
    let mut c = client("binance", "BNBBTC");
    let first = get_universal_msg(&mut c, &KLINE.to_string());
    let second = get_universal_msg(&mut c, &KLINE.to_string());
    assert!(first.is_some());
    assert_eq!(first, second);
}

#[test]
fn binance_missing_fields_render_as_null() {
    let mut c = client("binance", "BNBBTC");
    let m = get_universal_msg(&mut c, &"{\"k\":{\"t\":1000}}".to_string());
    assert_eq!(
        m,
        Some("{\"ts\":\"1\",\"o\":null,\"h\":null,\"l\":null,\"c\":null,\"v\":null}".to_string())
    );
    assert_eq!(c.oldp, "null");
}

#[test]
fn hitbtc_update_is_relayed_once() {
    let mut c = client("hitbtc", "ETHBTC");
    let first = get_universal_msg(&mut c, &UPDATE.to_string());
    assert_eq!(first, Some(UPDATE_JSON.to_string()));
    assert_eq!(c.oldp, "\"0.054625\"");
    assert_eq!(c.oldv, "\"380.750\"");
    let second = get_universal_msg(&mut c, &UPDATE.to_string());
    assert_eq!(second, None);
    assert_eq!(c.oldp, "\"0.054625\"");
    assert_eq!(c.oldv, "\"380.750\"");
}

#[test]
fn hitbtc_update_with_new_volume_is_relayed() {
    let mut c = client("hitbtc", "ETHBTC");
    assert!(get_universal_msg(&mut c, &UPDATE.to_string()).is_some());
    let changed = UPDATE.replace("380.750", "381.000");
    let m = get_universal_msg(&mut c, &changed);
    assert_eq!(m, Some(UPDATE_JSON.replace("380.750", "381.000")));
    assert_eq!(c.oldv, "\"381.000\"");
}

#[test]
fn hitbtc_ack_is_ignored() {
    let mut c = client("hitbtc", "ETHBTC");
    let m = get_universal_msg(&mut c, &"{\"jsonrpc\":\"2.0\",\"result\":true,\"id\":123}".to_string());
    assert_eq!(m, None);
    assert_eq!(c.oldp, "");
}

#[test]
fn hitbtc_snapshot_is_ignored() {
    let mut c = client("hitbtc", "ETHBTC");
    let snapshot = UPDATE.replace("updateCandles", "snapshotCandles");
    assert_eq!(get_universal_msg(&mut c, &snapshot), None);
    assert_eq!(c.oldv, "");
}

#[test]
fn hitbtc_other_method_is_ignored() {
    let mut c = client("hitbtc", "ETHBTC");
    let other = UPDATE.replace("updateCandles", "ticker");
    assert_eq!(get_universal_msg(&mut c, &other), None);
}

#[test]
fn unknown_broker_relays_nothing() {
    let mut c = client("kraken", "XBTUSD");
    assert_eq!(get_universal_msg(&mut c, &"not json at all".to_string()), None);
    assert_eq!(c.oldp, "");
}

#[test]
fn try_universal_rejects_invalid_json() {
    let mut c = client("binance", "BNBBTC");
    assert!(try_universal_msg(&mut c, &"{\"k\":".to_string()).is_none());
    assert_eq!(c.oldp, "");
}

#[test]
fn try_universal_rejects_unreadable_timestamp() {
    let mut c = client("hitbtc", "ETHBTC");
    let bad = UPDATE.replace("2017-10-19T16:34:00.000Z", "yesterday");
    assert!(try_universal_msg(&mut c, &bad).is_none());
    assert_eq!(c.oldp, "");
}

#[test]
fn try_universal_rejects_epoch_timestamp() {
    let mut c = client("hitbtc", "ETHBTC");
    let epoch = UPDATE.replace("2017-10-19T16:34:00.000Z", "1970-01-01T00:00:00Z");
    assert!(try_universal_msg(&mut c, &epoch).is_none());
}

#[test]
fn try_universal_rejects_short_binance_timestamp() {
    let mut c = client("binance", "BNBBTC");
    assert!(try_universal_msg(&mut c, &"{\"k\":{\"t\":7}}".to_string()).is_none());
}

#[test]
fn try_universal_matches_get_universal() {
    let mut a = client("hitbtc", "ETHBTC");
    let mut b = client("hitbtc", "ETHBTC");
    let via_try = try_universal_msg(&mut a, &UPDATE.to_string());
    let direct = get_universal_msg(&mut b, &UPDATE.to_string());
    assert_eq!(via_try, Some(direct));
    assert_eq!(a.oldp, b.oldp);
}

#[test]
fn hitbtc_time_before_epoch_is_relayed_in_seconds() {
    let mut c = client("hitbtc", "ETHBTC");
    let before = UPDATE.replace("2017-10-19T16:34:00.000Z", "1969-12-31T23:59:59Z");
    let m = get_universal_msg(&mut c, &before).unwrap();
    assert!(m.starts_with("{\"ts\":\"-1\",\"o\":"));
}
