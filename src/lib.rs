//! Request-dispatch engine: route resolution, handler registry, rate
//! limiting, connection admission, worker affinity and response shaping.

pub mod text;
pub mod key;
pub mod assoc;
pub mod path;
pub mod router;
pub mod ratelimit;
pub mod admission;
pub mod response;
pub mod client;
pub mod server;
