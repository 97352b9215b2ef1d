pub mod commons;
pub mod handshake;
pub mod router;
pub mod scheduler;
pub mod worker;
pub mod peer;
pub mod admin;
