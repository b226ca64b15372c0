//! An inbound mail gateway: the SMTP session state machine, the cache of
//! domain destinations and the routing and relay decisions.
pub mod text;
pub mod smtp;
pub mod cache;
pub mod address;
pub mod mailer;
pub mod router;
pub mod header;
