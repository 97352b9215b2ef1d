pub mod wire;
pub mod commons;
pub mod header;
pub mod payload;
pub mod checksum;
pub mod hex_text;
pub mod msg;
pub mod msgs;
pub mod lines;
