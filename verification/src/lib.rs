//! Device-side MQTT agent core: configuration and its file format, client
//! identifier and topic derivation, synthetic sensor payloads with their JSON
//! text, and the reconnect/retry decision machines that the publisher and
//! subscriber loops run on. Everything here is verified; the surrounding
//! process (clock, file and network I/O) hands these functions plain values.
pub mod config;
pub mod connect;
pub mod duration;
pub mod ident;
pub mod numerals;
pub mod payload;
pub mod publisher;
pub mod subscriber;
pub mod text;
