//! Routing core of an FTP server that serves control and data connections on
//! one proxied port: endpoint model, the passive-port switchboard, the router's
//! decisions, and the store-unique command handler.

pub mod endpoint;
pub mod reply;
pub mod router;
pub mod session;
pub mod stou;
pub mod switchboard;
pub mod text;
