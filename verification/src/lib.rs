//! Verified core of a websocket relay that forwards exchange candle feeds
//! to the browsers subscribed to a room.

pub mod client;
pub mod credentials;
pub mod datetime;
pub mod exchange;
pub mod json;
pub mod laws;
pub mod rooms;
pub mod server;
pub mod strmap;
pub mod text;
pub mod ticks;

pub use client::{get_universal_msg, try_universal_msg, Broadcast, Client};
pub use exchange::{get_ws_id, get_ws_url};
pub use rooms::{send_msg_to_user, Delivery, Hub, RoomUsersRegistry, UserStatusRegistry};
pub use server::{CloseCode, OpenOutcome, Server};
pub use ticks::{StringGenericOHLC, StringGenericTick};
