use coinamics_ws::{
    send_msg_to_user, Client, CloseCode, Delivery, Hub, OpenOutcome, RoomUsersRegistry, Server,
    UserStatusRegistry,
};

const UPDATE: &str = "{\"jsonrpc\":\"2.0\",\"method\":\"updateCandles\",\"params\":{\"data\":[{\"timestamp\":\"2017-10-19T16:34:00.000Z\",\"open\":\"0.054801\",\"close\":\"0.054625\",\"min\":\"0.054601\",\"max\":\"0.054894\",\"volume\":\"380.750\"}],\"symbol\":\"ETHBTC\",\"period\":\"M30\"}}";

struct World {
    hub: Hub,
    users: UserStatusRegistry,
    rooms: RoomUsersRegistry,
}

fn world() -> World {
    World { hub: Hub::new(), users: UserStatusRegistry::new(), rooms: RoomUsersRegistry::new() }
}

fn open(w: &mut World, id: u32, path: &str) -> OpenOutcome {
    Server { id }.on_open(&mut w.hub, &mut w.users, &mut w.rooms, path)
}

fn members(w: &World, room_nb: u32) -> Vec<u32> {
    w.rooms.rooms.as_ref().unwrap().get(&room_nb).cloned().unwrap_or_default()
}

#[test]
fn open_rejects_path_without_stream() {
    let mut w = world();
    assert!(matches!(open(&mut w, 0, "/binance"), OpenOutcome::Rejected));
    assert!(matches!(open(&mut w, 0, ""), OpenOutcome::Rejected));
    assert_eq!(w.hub.count, 0);
    assert_eq!(w.hub.room_count, 0);
    assert!(w.users.statuses.is_empty());
    assert!(w.rooms.rooms.as_ref().unwrap().is_empty());
}

#[test]
fn first_user_creates_room() {
    let mut w = world();
    match open(&mut w, 0, "/binance/BTCUSDT/1m") {
        OpenOutcome::Accepted { broker, pair, interval, url, room_id, room_nb, creates_room } => {
            assert_eq!(broker, "binance");
            assert_eq!(pair, "BTCUSDT");
            assert_eq!(interval, "1m");
            assert_eq!(url, "wss://stream.binance.com:9443/ws/btcusdt@kline_1m");
            assert_eq!(room_id, "binance-BTCUSDT-1m");
            assert_eq!(room_nb, 1);
            assert!(creates_room);
        }
        OpenOutcome::Rejected => panic!("rejected"),
    }
    assert_eq!(w.hub.count, 1);
    assert_eq!(w.hub.room_count, 1);
    assert_eq!(w.users.status(0), Some(true));
    assert_eq!(members(&w, 1), vec![0]);
}

#[test]
fn second_user_joins_existing_room() {
    let mut w = world();
    open(&mut w, 0, "/binance/BTCUSDT/1m");
    match open(&mut w, 1, "/binance/BTCUSDT/1m") {
        OpenOutcome::Accepted { room_nb, creates_room, .. } => {
            assert_eq!(room_nb, 1);
            assert!(!creates_room);
        }
        OpenOutcome::Rejected => panic!("rejected"),
    }
    assert_eq!(w.hub.count, 2);
    assert_eq!(w.hub.room_count, 1);
    assert_eq!(members(&w, 1), vec![0, 1]);
}

#[test]
fn different_streams_get_different_rooms() {
    let mut w = world();
    open(&mut w, 0, "/binance/BTCUSDT/1m");
    match open(&mut w, 1, "/hitbtc/ETHBTC/M1/extra") {
        OpenOutcome::Accepted { room_nb, creates_room, url, room_id, .. } => {
            assert_eq!(room_nb, 2);
            assert!(creates_room);
            assert_eq!(url, "wss://api.hitbtc.com/api/2/ws");
            assert_eq!(room_id, "hitbtc-ETHBTC-M1");
        }
        OpenOutcome::Rejected => panic!("rejected"),
    }
    assert_eq!(w.hub.room_count, 2);
    assert_eq!(members(&w, 2), vec![1]);
}

#[test]
fn room_number_is_stable() {
    let mut w = world();
    let s = Server { id: 4 };
    let a = s.set_room_nb(&mut w.hub, "b".into(), "p".into(), "i".into(), "b-p-i".into());
    let b = s.set_room_nb(&mut w.hub, "b".into(), "p".into(), "i".into(), "b-p-i".into());
    assert_eq!(a, 1);
    assert_eq!(a, b);
    assert_eq!(w.hub.room_count, 1);
    assert_eq!(s.get_room_nb_by_id(&w.hub, "b-p-i".into()), Some(1));
    assert_eq!(s.get_room_nb_by_id(&w.hub, "x".into()), None);
}

#[test]
fn update_room_count_keeps_existing_counter() {
    let mut w = world();
    let s = Server { id: 0 };
    s.update_room_count(&mut w.hub, "r".into());
    s.update_room_count(&mut w.hub, "r".into());
    assert_eq!(w.hub.room_counter.get("r"), Some(0));
}

#[test]
fn unavailable_registry_always_creates() {
    let mut rooms = RoomUsersRegistry { rooms: None };
    let s = Server { id: 2 };
    assert!(s.update_room_users(&mut rooms, 1));
    assert!(s.update_room_users(&mut rooms, 1));
    assert!(rooms.rooms.is_none());
}

#[test]
fn away_marks_user_gone() {
    let mut w = world();
    open(&mut w, 0, "/binance/BTCUSDT/1m");
    let s = Server { id: 0 };
    assert!(!s.on_close(&mut w.users, CloseCode::Normal));
    assert_eq!(w.users.status(0), Some(true));
    assert!(s.on_close(&mut w.users, CloseCode::Away));
    assert_eq!(w.users.status(0), Some(false));
}

#[test]
fn status_close_marks_user_gone_but_unknown_user_stays_unknown() {
    let mut users = UserStatusRegistry::new();
    let s = Server { id: 9 };
    assert!(s.on_close(&mut users, CloseCode::Status));
    assert_eq!(users.status(9), None);
    assert!(!s.on_close(&mut users, CloseCode::Other(4000)));
}

#[test]
fn delivery_follows_status() {
    let mut users = UserStatusRegistry::new();
    Server { id: 1 }.update_user_isconnected(&mut users);
    Server { id: 2 }.update_user_isconnected(&mut users);
    Server { id: 2 }.update_user_setnotconnected(&mut users);
    assert_eq!(send_msg_to_user(&users, 1), Delivery::Send);
    assert_eq!(send_msg_to_user(&users, 2), Delivery::Drop);
    assert_eq!(send_msg_to_user(&users, 3), Delivery::Keep);
}

#[test]
fn relay_reaches_connected_and_drops_departed() {
    let mut w = world();
    open(&mut w, 0, "/hitbtc/ETHBTC/M30");
    open(&mut w, 1, "/hitbtc/ETHBTC/M30");
    open(&mut w, 2, "/hitbtc/ETHBTC/M30");
    Server { id: 3 }.update_room_users(&mut w.rooms, 1);
    Server { id: 1 }.on_close(&mut w.users, CloseCode::Away);
    let mut feed = Client::new("hitbtc".into(), "ETHBTC".into(), Some("hitbtc-ETHBTC-M30".into()), 1);
    let b = feed.on_message(&UPDATE.to_string(), &w.users, &mut w.rooms).unwrap();
    assert_eq!(b.room_id, "hitbtc-ETHBTC-M30");
    assert_eq!(b.recipients, vec![0, 2]);
    assert!(b.message.starts_with("{\"ts\":\"1508430840\""));
    assert_eq!(members(&w, 1), vec![0, 2, 3]);
    // The same candle again is not relayed and the room is left alone.
    assert!(feed.on_message(&UPDATE.to_string(), &w.users, &mut w.rooms).is_none());
    assert_eq!(members(&w, 1), vec![0, 2, 3]);
}

#[test]
fn try_on_message_refuses_relay_without_room_id() {
    let mut w = world();
    let mut feed = Client::new("hitbtc".into(), "ETHBTC".into(), None, 1);
    assert!(feed.try_on_message(&UPDATE.to_string(), &w.users, &mut w.rooms).is_none());
    assert_eq!(feed.oldp, "");
    let ack = "{\"result\":true}".to_string();
    assert!(matches!(feed.try_on_message(&ack, &w.users, &mut w.rooms), Some(None)));
}

#[test]
fn server_reply_names_user_and_count() {
    assert_eq!(Server { id: 3 }.on_message(5), "You are user 3 on Cell { value: 5 }");
}

#[test]
fn empty_path_segments_are_kept() {
    let mut w = world();
    match open(&mut w, 7, "/kraken//M1") {
        OpenOutcome::Accepted { broker, pair, url, room_id, room_nb, .. } => {
            assert_eq!(broker, "kraken");
            assert_eq!(pair, "");
            assert_eq!(url, " ");
            assert_eq!(room_id, "kraken--M1");
            assert_eq!(room_nb, 1);
        }
        OpenOutcome::Rejected => panic!("rejected"),
    }
}
